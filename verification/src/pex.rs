//! Peer exchange: which peer addresses may be shared or accepted, and how
//! an address is tied to the peer it reaches.

use vstd::prelude::*;
use std::str::FromStr;
use libp2p::multiaddr::Protocol;

verus! {

/// Name of the peer exchange protocol.
pub const PEX_PROTOCOL: &'static str = "/onvm/pex/1.0.0";

/// A request for up to `want` peers.
#[derive(Clone, Copy, Debug, PartialEq, Eq)]
pub struct PexRequest {
    pub want: u32,
}

/// Peers and their addresses, as text.
#[derive(Clone, Debug, PartialEq, Eq)]
pub struct PexResponse {
    pub peers: Vec<PexPeer>,
}

/// One peer and its addresses, as text.
#[derive(Clone, Debug, PartialEq, Eq)]
pub struct PexPeer {
    pub peer_id: String,
    pub addrs: Vec<String>,
}

/// Limits on what is shared and accepted.
#[derive(Clone, Copy, Debug)]
pub struct PexPolicy {
    pub max_peers_per_response: usize,
    pub max_addrs_per_peer: usize,
    pub allow_private_addrs: bool,
    pub allow_loopback_addrs: bool,
}

impl Default for PexPolicy {
    fn default() -> (res: Self)
        ensures
            res.max_peers_per_response == 128,
            res.max_addrs_per_peer == 8,
            res.allow_private_addrs,
            !res.allow_loopback_addrs,
    {
        PexPolicy {
            max_peers_per_response: 128,
            max_addrs_per_peer: 8,
            allow_private_addrs: true,
            allow_loopback_addrs: false,
        }
    }
}

/// One component of a multiaddress.
#[derive(Clone, Debug, PartialEq, Eq)]
pub enum AddrPart {
    /// An IPv4 address, by its octets.
    Ip4([u8; 4]),
    /// An IPv6 address, by its octets.
    Ip6([u8; 16]),
    /// A TCP port.
    Tcp(u16),
    /// The peer the address reaches, by the bytes of its peer id.
    P2p(Vec<u8>),
    /// Any other component, by its binary multiaddress encoding.
    Other(Vec<u8>),
}

/// A multiaddress, component by component.
#[derive(Clone, Debug, PartialEq, Eq)]
pub struct Addr {
    pub parts: Vec<AddrPart>,
}

/// An IP address.
#[derive(Clone, Copy, Debug, PartialEq, Eq)]
pub enum IpAddr {
    V4([u8; 4]),
    V6([u8; 16]),
}

/// A component as a tag and its bytes.
pub open spec fn spec_part_view(p: AddrPart) -> (int, Seq<u8>) {
    match p {
        AddrPart::Ip4(o) => (4, o@),
        AddrPart::Ip6(o) => (6, o@),
        AddrPart::Tcp(port) => (7, seq![(port / 256) as u8, (port % 256) as u8]),
        AddrPart::P2p(b) => (1, b@),
        AddrPart::Other(b) => (0, b@),
    }
}

/// An address as the tags and bytes of its components.
pub open spec fn spec_addr_view(a: Addr) -> Seq<(int, Seq<u8>)> {
    a.parts@.map_values(|p: AddrPart| spec_part_view(p))
}

/// The address with this text form, when the text is a multiaddress.
pub uninterp spec fn multiaddr_parse(text: Seq<char>) -> Option<Addr>;

/// The text form of an address, given by its components' tags and bytes,
/// when they form a multiaddress.
pub uninterp spec fn multiaddr_text(addr: Seq<(int, Seq<u8>)>) -> Option<Seq<char>>;

/// The bytes of the peer id with this text form, when the text is one.
pub uninterp spec fn peer_id_parse(text: Seq<char>) -> Option<Seq<u8>>;

/// The text form of the peer id with these bytes, when they are one.
pub uninterp spec fn peer_id_text(bytes: Seq<u8>) -> Option<Seq<char>>;

/// Parses `text` with `Multiaddr::from_str` and lists its components.
#[verifier::external_body]
pub fn parse_multiaddr(text: &str) -> (res: Option<Addr>)
    ensures
        res == multiaddr_parse(text@),
{
    let addr = libp2p::Multiaddr::from_str(text).ok()?;
    let parts = addr.iter().map(|p| match p {
        Protocol::Ip4(ip) => AddrPart::Ip4(ip.octets()),
        Protocol::Ip6(ip) => AddrPart::Ip6(ip.octets()),
        Protocol::Tcp(port) => AddrPart::Tcp(port),
        Protocol::P2p(peer) => AddrPart::P2p(peer.to_bytes()),
        other => AddrPart::Other(libp2p::Multiaddr::empty().with(other).to_vec()),
    }).collect();
    Some(Addr { parts })
}

/// Rebuilds the `Multiaddr` from the components and formats it with `Display`.
#[verifier::external_body]
pub fn format_multiaddr(addr: &Addr) -> (res: Option<String>)
    ensures
        match multiaddr_text(spec_addr_view(*addr)) {
            Some(t) => res matches Some(s) && s@ == t,
            None => res is None,
        },
{
    let mut out = libp2p::Multiaddr::empty();
    for part in &addr.parts {
        out.push(match part {
            AddrPart::Ip4(o) => Protocol::Ip4((*o).into()),
            AddrPart::Ip6(o) => Protocol::Ip6((*o).into()),
            AddrPart::Tcp(port) => Protocol::Tcp(*port),
            AddrPart::P2p(b) => Protocol::P2p(libp2p::PeerId::from_bytes(b).ok()?),
            AddrPart::Other(b) => Protocol::from_bytes(b).ok()?.0,
        });
    }
    Some(out.to_string())
}

/// Parses `text` with `PeerId::from_str` and returns its bytes.
#[verifier::external_body]
pub fn parse_peer_id(text: &str) -> (res: Option<Vec<u8>>)
    ensures
        match peer_id_parse(text@) {
            Some(b) => res matches Some(v) && v@ == b,
            None => res is None,
        },
{
    libp2p::PeerId::from_str(text).ok().map(|p| p.to_bytes())
}

/// Parses the bytes with `PeerId::from_bytes` and formats the peer id with
/// `Display` (base58 of the multihash bytes). The multihash reader accepts
/// only minimal varints and no trailing bytes, so the peer id's bytes are the
/// bytes given, and parsing the text gives them back.
#[verifier::external_body]
pub fn format_peer_id(bytes: &[u8]) -> (res: Option<String>)
    ensures
        match peer_id_text(bytes@) {
            Some(t) => res matches Some(s) && s@ == t,
            None => res is None,
        },
        res matches Some(s) ==> peer_id_parse(s@) == Some(bytes@),
{
    libp2p::PeerId::from_bytes(bytes).ok().map(|p| p.to_string())
}

/// 0.0.0.0.
pub open spec fn spec_ip4_unspecified(o: [u8; 4]) -> bool {
    o[0] == 0 && o[1] == 0 && o[2] == 0 && o[3] == 0
}

/// 224.0.0.0/4.
pub open spec fn spec_ip4_multicast(o: [u8; 4]) -> bool {
    224 <= o[0] <= 239
}

/// 127.0.0.0/8.
pub open spec fn spec_ip4_loopback(o: [u8; 4]) -> bool {
    o[0] == 127
}

/// 10.0.0.0/8, 172.16.0.0/12, 192.168.0.0/16 or the link-local 169.254.0.0/16.
pub open spec fn spec_ip4_private_or_link_local(o: [u8; 4]) -> bool {
    o[0] == 10 || (o[0] == 172 && 16 <= o[1] <= 31) || (o[0] == 192 && o[1] == 168)
        || (o[0] == 169 && o[1] == 254)
}

/// ::.
pub open spec fn spec_ip6_unspecified(o: [u8; 16]) -> bool {
    forall|i: int| 0 <= i < 16 ==> o[i] == 0
}

/// ff00::/8.
pub open spec fn spec_ip6_multicast(o: [u8; 16]) -> bool {
    o[0] == 0xff
}

/// ::1.
pub open spec fn spec_ip6_loopback(o: [u8; 16]) -> bool {
    (forall|i: int| 0 <= i < 15 ==> o[i] == 0) && o[15] == 1
}

/// Unique local fc00::/7 or link-local fe80::/10.
pub open spec fn spec_ip6_private_or_link_local(o: [u8; 16]) -> bool {
    o[0] == 0xfc || o[0] == 0xfd || (o[0] == 0xfe && 0x80 <= o[1] <= 0xbf)
}

/// Whether a component rules its address out.
pub open spec fn spec_part_blocked(p: AddrPart, allow_private: bool, allow_loopback: bool) -> bool {
    match p {
        AddrPart::Ip4(o) => spec_ip4_unspecified(o) || spec_ip4_multicast(o)
            || (!allow_loopback && spec_ip4_loopback(o))
            || (!allow_private && spec_ip4_private_or_link_local(o)),
        AddrPart::Ip6(o) => spec_ip6_unspecified(o) || spec_ip6_multicast(o)
            || (!allow_loopback && spec_ip6_loopback(o))
            || (!allow_private && spec_ip6_private_or_link_local(o)),
        _ => false,
    }
}

/// An address may be shared or dialled: none of its IP components is
/// unspecified or multicast, nor loopback or private unless allowed.
pub open spec fn spec_addr_allowed(parts: Seq<AddrPart>, allow_private: bool, allow_loopback: bool) -> bool {
    forall|i: int| 0 <= i < parts.len() ==> !#[trigger] spec_part_blocked(parts[i], allow_private, allow_loopback)
}

fn ip4_blocked(o: &[u8; 4], allow_private: bool, allow_loopback: bool) -> (res: bool)
    ensures
        res == spec_part_blocked(AddrPart::Ip4(*o), allow_private, allow_loopback),
{
    let unspecified = o[0] == 0 && o[1] == 0 && o[2] == 0 && o[3] == 0;
    let multicast = 224 <= o[0] && o[0] <= 239;
    let loopback = o[0] == 127;
    let private = o[0] == 10 || (o[0] == 172 && 16 <= o[1] && o[1] <= 31) || (o[0] == 192 && o[1] == 168)
        || (o[0] == 169 && o[1] == 254);
    unspecified || multicast || (!allow_loopback && loopback) || (!allow_private && private)
}

fn ip6_blocked(o: &[u8; 16], allow_private: bool, allow_loopback: bool) -> (res: bool)
    ensures
        res == spec_part_blocked(AddrPart::Ip6(*o), allow_private, allow_loopback),
{
    let mut head_zero = true;
    let mut i: usize = 0;
    while i < 15
        invariant
            i <= 15,
            head_zero == (forall|j: int| 0 <= j < i ==> o[j] == 0),
        decreases 15 - i,
    {
        head_zero = head_zero && o[i] == 0;
        i = i + 1;
    }
    let unspecified = head_zero && o[15] == 0;
    let loopback = head_zero && o[15] == 1;
    proof {
        if unspecified {
            assert(spec_ip6_unspecified(*o));
        }
        if spec_ip6_unspecified(*o) {
            assert(o[15] == 0);
        }
    }
    let multicast = o[0] == 0xff;
    let private = o[0] == 0xfc || o[0] == 0xfd || (o[0] == 0xfe && 0x80 <= o[1] && o[1] <= 0xbf);
    unspecified || multicast || (!allow_loopback && loopback) || (!allow_private && private)
}

/// Whether an address may be shared or dialled under the given allowances.
pub fn addr_allowed(addr: &Addr, allow_private: bool, allow_loopback: bool) -> (res: bool)
    ensures
        res == spec_addr_allowed(addr.parts@, allow_private, allow_loopback),
{
    let mut i: usize = 0;
    while i < addr.parts.len()
        invariant
            i <= addr.parts@.len(),
            forall|j: int| 0 <= j < i ==> !#[trigger] spec_part_blocked(addr.parts@[j], allow_private, allow_loopback),
        decreases addr.parts@.len() - i,
    {
        let blocked = match &addr.parts[i] {
            AddrPart::Ip4(o) => ip4_blocked(o, allow_private, allow_loopback),
            AddrPart::Ip6(o) => ip6_blocked(o, allow_private, allow_loopback),
            _ => false,
        };
        if blocked {
            return false;
        }
        i = i + 1;
    }
    true
}

/// Whether an address is public: allowed with neither private nor loopback ranges.
pub fn is_public_addr(addr: &Addr) -> (res: bool)
    ensures
        res == spec_addr_allowed(addr.parts@, false, false),
{
    addr_allowed(addr, false, false)
}

/// The first IP component of an address, if any.
pub open spec fn spec_extract_ip(parts: Seq<AddrPart>) -> Option<IpAddr>
    decreases parts.len(),
{
    if parts.len() == 0 {
        None
    } else {
        match parts[0] {
            AddrPart::Ip4(o) => Some(IpAddr::V4(o)),
            AddrPart::Ip6(o) => Some(IpAddr::V6(o)),
            _ => spec_extract_ip(parts.drop_first()),
        }
    }
}

/// The first IP address in an address, if any.
pub fn extract_ip(addr: &Addr) -> (res: Option<IpAddr>)
    ensures
        res == spec_extract_ip(addr.parts@),
{
    let mut i: usize = 0;
    assert(addr.parts@.skip(0) =~= addr.parts@);
    while i < addr.parts.len()
        invariant
            i <= addr.parts@.len(),
            spec_extract_ip(addr.parts@) == spec_extract_ip(addr.parts@.skip(i as int)),
        decreases addr.parts@.len() - i,
    {
        assert(addr.parts@.skip(i as int).drop_first() =~= addr.parts@.skip(i + 1));
        assert(addr.parts@.skip(i as int)[0] == addr.parts@[i as int]);
        match &addr.parts[i] {
            AddrPart::Ip4(o) => return Some(IpAddr::V4(*o)),
            AddrPart::Ip6(o) => return Some(IpAddr::V6(*o)),
            _ => {},
        }
        i = i + 1;
    }
    None
}

pub(crate) fn copy_bytes(v: &Vec<u8>) -> (res: Vec<u8>)
    ensures
        res@ == v@,
{
    let r = v.clone();
    assert(r@ =~= v@);
    r
}

fn copy_part(p: &AddrPart) -> (res: AddrPart)
    ensures
        spec_part_view(res) == spec_part_view(*p),
{
    match p {
        AddrPart::Ip4(o) => AddrPart::Ip4(*o),
        AddrPart::Ip6(o) => AddrPart::Ip6(*o),
        AddrPart::Tcp(port) => AddrPart::Tcp(*port),
        AddrPart::P2p(b) => AddrPart::P2p(copy_bytes(b)),
        AddrPart::Other(b) => AddrPart::Other(copy_bytes(b)),
    }
}

/// The address with its trailing peer component, if any, replaced by one for `peer`.
pub open spec fn spec_normalize(parts: Seq<(int, Seq<u8>)>, peer: Seq<u8>) -> Seq<(int, Seq<u8>)> {
    let kept = if parts.len() > 0 && parts.last().0 == 1 { parts.drop_last() } else { parts };
    kept.push((1, peer))
}

/// Tie an address to `peer`: drop a trailing peer component, then append one for `peer`.
pub fn normalize_p2p_component(addr: Addr, peer: &Vec<u8>) -> (res: Addr)
    ensures
        spec_addr_view(res) == spec_normalize(spec_addr_view(addr), peer@),
{
    let mut parts = addr.parts;
    let ghost before = parts@;
    let n = parts.len();
    if n > 0 {
        let drop = match &parts[n - 1] {
            AddrPart::P2p(_) => true,
            _ => false,
        };
        if drop {
            parts.pop();
        }
    }
    parts.push(AddrPart::P2p(copy_bytes(peer)));
    let res = Addr { parts };
    proof {
        let v = before.map_values(|p: AddrPart| spec_part_view(p));
        let kept = if v.len() > 0 && v.last().0 == 1 { v.drop_last() } else { v };
        assert(spec_addr_view(res) =~= kept.push((1, peer@)));
    }
    res
}

/// The address with unspecified IP components of the observed address's
/// family replaced by the observed IP.
pub open spec fn spec_rewrite_part(p: AddrPart, observed: IpAddr) -> AddrPart {
    match (p, observed) {
        (AddrPart::Ip4(o), IpAddr::V4(obs)) => if spec_ip4_unspecified(o) { AddrPart::Ip4(obs) } else { p },
        (AddrPart::Ip6(o), IpAddr::V6(obs)) => if spec_ip6_unspecified(o) { AddrPart::Ip6(obs) } else { p },
        _ => p,
    }
}

fn rewrite_addr_ip_if_unspecified(addr: &Addr, observed: IpAddr) -> (res: Addr)
    ensures
        res.parts@.len() == addr.parts@.len(),
        forall|i: int| 0 <= i < addr.parts@.len() ==> spec_part_view(#[trigger] res.parts@[i])
            == spec_part_view(spec_rewrite_part(addr.parts@[i], observed)),
{
    let mut out: Vec<AddrPart> = Vec::new();
    let mut i: usize = 0;
    while i < addr.parts.len()
        invariant
            i <= addr.parts@.len(),
            out@.len() == i,
            forall|j: int| 0 <= j < i ==> spec_part_view(#[trigger] out@[j])
                == spec_part_view(spec_rewrite_part(addr.parts@[j], observed)),
        decreases addr.parts@.len() - i,
    {
        let part = match (&addr.parts[i], observed) {
            (AddrPart::Ip4(o), IpAddr::V4(obs)) => {
                if o[0] == 0 && o[1] == 0 && o[2] == 0 && o[3] == 0 { AddrPart::Ip4(obs) } else { AddrPart::Ip4(*o) }
            },
            (AddrPart::Ip6(o), IpAddr::V6(obs)) => {
                let zero = ip6_is_zero(o);
                if zero { AddrPart::Ip6(obs) } else { AddrPart::Ip6(*o) }
            },
            (p, _) => copy_part(p),
        };
        out.push(part);
        i = i + 1;
    }
    Addr { parts: out }
}

fn ip6_is_zero(o: &[u8; 16]) -> (res: bool)
    ensures
        res == spec_ip6_unspecified(*o),
{
    let mut i: usize = 0;
    while i < 16
        invariant
            i <= 16,
            forall|j: int| 0 <= j < i ==> o[j] == 0,
        decreases 16 - i,
    {
        if o[i] != 0 {
            return false;
        }
        i = i + 1;
    }
    true
}

/// A component's view rules its address out (the view form of `spec_part_blocked`).
pub open spec fn spec_view_blocked(v: (int, Seq<u8>), allow_private: bool, allow_loopback: bool) -> bool {
    let b = v.1;
    if v.0 == 4 && b.len() == 4 {
        (b[0] == 0 && b[1] == 0 && b[2] == 0 && b[3] == 0) || (224 <= b[0] <= 239)
            || (!allow_loopback && b[0] == 127)
            || (!allow_private && (b[0] == 10 || (b[0] == 172 && 16 <= b[1] <= 31) || (b[0] == 192 && b[1] == 168)
                || (b[0] == 169 && b[1] == 254)))
    } else if v.0 == 6 && b.len() == 16 {
        (forall|i: int| 0 <= i < 16 ==> b[i] == 0) || b[0] == 0xff
            || (!allow_loopback && (forall|i: int| 0 <= i < 15 ==> b[i] == 0) && b[15] == 1)
            || (!allow_private && (b[0] == 0xfc || b[0] == 0xfd || (b[0] == 0xfe && 0x80 <= b[1] <= 0xbf)))
    } else {
        false
    }
}

/// An address view may be shared or dialled.
pub open spec fn spec_view_allowed(v: Seq<(int, Seq<u8>)>, allow_private: bool, allow_loopback: bool) -> bool {
    forall|i: int| 0 <= i < v.len() ==> !#[trigger] spec_view_blocked(v[i], allow_private, allow_loopback)
}

proof fn lemma_view_blocked(p: AddrPart, allow_private: bool, allow_loopback: bool)
    ensures
        spec_view_blocked(spec_part_view(p), allow_private, allow_loopback)
            == spec_part_blocked(p, allow_private, allow_loopback),
{
    match p {
        AddrPart::Ip6(o) => {
            assert((forall|i: int| 0 <= i < 16 ==> o@[i] == 0) == spec_ip6_unspecified(o));
            assert(((forall|i: int| 0 <= i < 15 ==> o@[i] == 0) && o@[15] == 1) == spec_ip6_loopback(o));
        },
        _ => {},
    }
}

proof fn lemma_view_allowed(parts: Seq<AddrPart>, allow_private: bool, allow_loopback: bool)
    ensures
        spec_view_allowed(parts.map_values(|p: AddrPart| spec_part_view(p)), allow_private, allow_loopback)
            == spec_addr_allowed(parts, allow_private, allow_loopback),
{
    let v = parts.map_values(|p: AddrPart| spec_part_view(p));
    assert forall|i: int| 0 <= i < parts.len() implies spec_view_blocked(#[trigger] v[i], allow_private, allow_loopback)
        == spec_part_blocked(parts[i], allow_private, allow_loopback) by {
        lemma_view_blocked(parts[i], allow_private, allow_loopback);
    }
    if spec_view_allowed(v, allow_private, allow_loopback) {
        assert forall|i: int| 0 <= i < parts.len() implies !#[trigger] spec_part_blocked(parts[i], allow_private, allow_loopback) by {
            assert(!spec_view_blocked(v[i], allow_private, allow_loopback));
        }
    }
    if spec_addr_allowed(parts, allow_private, allow_loopback) {
        assert forall|i: int| 0 <= i < v.len() implies !#[trigger] spec_view_blocked(v[i], allow_private, allow_loopback) by {
            assert(!spec_part_blocked(parts[i], allow_private, allow_loopback));
        }
    }
}

/// Whether an address may be shared or dialled, read from its view.
pub fn view_allowed(addr: &Addr, allow_private: bool, allow_loopback: bool) -> (res: bool)
    ensures
        res == spec_view_allowed(spec_addr_view(*addr), allow_private, allow_loopback),
{
    proof {
        lemma_view_allowed(addr.parts@, allow_private, allow_loopback);
    }
    addr_allowed(addr, allow_private, allow_loopback)
}

/// The first `n` elements, or all of them when there are fewer.
pub open spec fn spec_prefix<A>(s: Seq<A>, n: int) -> Seq<A> {
    if n < s.len() { s.take(n) } else { s }
}

/// Rewrite each listen address's unspecified IP with the IP that a peer
/// observed; without an observed IP the addresses are kept as they are.
pub fn rewrite_unspecified_listen_addrs(listen_addrs: Vec<Addr>, observed_addr: &Addr) -> (res: Vec<Addr>)
    ensures
        spec_extract_ip(observed_addr.parts@) is None ==> res@ == listen_addrs@,
        spec_extract_ip(observed_addr.parts@) matches Some(ip) ==> {
            &&& res@.len() == listen_addrs@.len()
            &&& forall|i: int| 0 <= i < res@.len() ==> {
                &&& (#[trigger] res@[i]).parts@.len() == listen_addrs@[i].parts@.len()
                &&& forall|j: int| 0 <= j < res@[i].parts@.len() ==> spec_part_view(#[trigger] res@[i].parts@[j])
                    == spec_part_view(spec_rewrite_part(listen_addrs@[i].parts@[j], ip))
            }
        },
{
    let observed_ip = match extract_ip(observed_addr) {
        Some(ip) => ip,
        None => return listen_addrs,
    };
    let mut out: Vec<Addr> = Vec::new();
    let mut i: usize = 0;
    while i < listen_addrs.len()
        invariant
            i <= listen_addrs@.len(),
            out@.len() == i,
            forall|k: int| 0 <= k < i ==> {
                &&& (#[trigger] out@[k]).parts@.len() == listen_addrs@[k].parts@.len()
                &&& forall|j: int| 0 <= j < out@[k].parts@.len() ==> spec_part_view(#[trigger] out@[k].parts@[j])
                    == spec_part_view(spec_rewrite_part(listen_addrs@[k].parts@[j], observed_ip))
            },
        decreases listen_addrs@.len() - i,
    {
        out.push(rewrite_addr_ip_if_unspecified(&listen_addrs[i], observed_ip));
        i = i + 1;
    }
    out
}

fn bytes_eq(a: &Vec<u8>, b: &Vec<u8>) -> (res: bool)
    ensures
        res == (a@ == b@),
{
    crate::proposal::bytes_eq(a, b)
}

fn part_eq(a: &AddrPart, b: &AddrPart) -> (res: bool)
    ensures
        res == (spec_part_view(*a) == spec_part_view(*b)),
{
    match (a, b) {
        (AddrPart::Ip4(x), AddrPart::Ip4(y)) => {
            let r = x[0] == y[0] && x[1] == y[1] && x[2] == y[2] && x[3] == y[3];
            proof {
                if r {
                    assert(x@ =~= y@);
                }
            }
            r
        },
        (AddrPart::Ip6(x), AddrPart::Ip6(y)) => {
            let mut i: usize = 0;
            while i < 16
                invariant
                    i <= 16,
                    forall|j: int| 0 <= j < i ==> x[j] == y[j],
                    spec_part_view(*a) == (6int, x@),
                    spec_part_view(*b) == (6int, y@),
                decreases 16 - i,
            {
                if x[i] != y[i] {
                    assert(x@[i as int] != y@[i as int]);
                    assert(x@ != y@);
                    return false;
                }
                i = i + 1;
            }
            assert(x@ =~= y@);
            true
        },
        (AddrPart::Tcp(x), AddrPart::Tcp(y)) => {
            if *x != *y {
                assert(spec_part_view(*a).1[0] != spec_part_view(*b).1[0] || spec_part_view(*a).1[1] != spec_part_view(*b).1[1]);
            }
            *x == *y
        },
        (AddrPart::P2p(x), AddrPart::P2p(y)) => bytes_eq(x, y),
        (AddrPart::Other(x), AddrPart::Other(y)) => bytes_eq(x, y),
        _ => false,
    }
}

fn addr_eq(a: &Addr, b: &Addr) -> (res: bool)
    ensures
        res == (spec_addr_view(*a) == spec_addr_view(*b)),
{
    let ghost va = spec_addr_view(*a);
    let ghost vb = spec_addr_view(*b);
    if a.parts.len() != b.parts.len() {
        assert(va.len() != vb.len());
        return false;
    }
    let mut i: usize = 0;
    while i < a.parts.len()
        invariant
            i <= a.parts@.len(),
            a.parts@.len() == b.parts@.len(),
            va == spec_addr_view(*a),
            vb == spec_addr_view(*b),
            forall|j: int| 0 <= j < i ==> va[j] == vb[j],
        decreases a.parts@.len() - i,
    {
        if !part_eq(&a.parts[i], &b.parts[i]) {
            assert(va[i as int] != vb[i as int]);
            return false;
        }
        i = i + 1;
    }
    assert(va =~= vb);
    true
}

/// The addresses kept for a peer among the first `n`: each tied to the peer,
/// allowed by the policy, and listed once, in order of first appearance.
pub open spec fn spec_validated(peer: Seq<u8>, addrs: Seq<Addr>, allow_private: bool, allow_loopback: bool, n: int) -> Seq<Seq<(int, Seq<u8>)>>
    decreases n,
{
    if n <= 0 {
        Seq::empty()
    } else {
        let prev = spec_validated(peer, addrs, allow_private, allow_loopback, n - 1);
        let a = spec_normalize(spec_addr_view(addrs[n - 1]), peer);
        if spec_view_allowed(a, allow_private, allow_loopback) && !prev.contains(a) {
            prev.push(a)
        } else {
            prev
        }
    }
}

/// Why peer exchange data was refused.
#[derive(Clone, Copy, Debug, PartialEq, Eq, Structural)]
pub enum PexError {
    /// No error is produced; the type keeps the interface of a fallible check.
    Unreachable,
}

fn contains_addr(list: &Vec<Addr>, a: &Addr) -> (res: bool)
    ensures
        res == list@.map_values(|x: Addr| spec_addr_view(x)).contains(spec_addr_view(*a)),
{
    let ghost views = list@.map_values(|x: Addr| spec_addr_view(x));
    let mut i: usize = 0;
    while i < list.len()
        invariant
            i <= list@.len(),
            views == list@.map_values(|x: Addr| spec_addr_view(x)),
            forall|j: int| 0 <= j < i ==> views[j] != spec_addr_view(*a),
        decreases list@.len() - i,
    {
        if addr_eq(&list[i], a) {
            assert(views[i as int] == spec_addr_view(*a));
            return true;
        }
        i = i + 1;
    }
    false
}

/// The addresses of `peer_id` that may be dialled: at most the policy's
/// number of them is looked at, each is tied to the peer, disallowed ones
/// are dropped and repeated ones listed once.
pub fn validate_peer_addrs(peer_id: &Vec<u8>, addrs: &[Addr], policy: &PexPolicy) -> (res: Result<Vec<Addr>, PexError>)
    ensures
        res matches Ok(v) && v@.map_values(|x: Addr| spec_addr_view(x)) == spec_validated(
            peer_id@, addrs@, policy.allow_private_addrs, policy.allow_loopback_addrs,
            spec_prefix(addrs@, policy.max_addrs_per_peer as int).len() as int,
        ),
{
    let limit = if policy.max_addrs_per_peer < addrs.len() { policy.max_addrs_per_peer } else { addrs.len() };
    let mut out: Vec<Addr> = Vec::new();
    let mut i: usize = 0;
    while i < limit
        invariant
            limit <= addrs@.len(),
            limit == spec_prefix(addrs@, policy.max_addrs_per_peer as int).len(),
            i <= limit,
            out@.map_values(|x: Addr| spec_addr_view(x)) == spec_validated(
                peer_id@, addrs@, policy.allow_private_addrs, policy.allow_loopback_addrs, i as int),
        decreases limit - i,
    {
        let addr = normalize_p2p_component(addrs[i].clone_addr(), peer_id);
        if view_allowed(&addr, policy.allow_private_addrs, policy.allow_loopback_addrs) && !contains_addr(&out, &addr) {
            let ghost before = out@;
            out.push(addr);
            assert(out@.map_values(|x: Addr| spec_addr_view(x)) =~= before.map_values(|x: Addr| spec_addr_view(x)).push(
                spec_addr_view(addr),
            ));
        }
        i = i + 1;
    }
    Ok(out)
}

impl Addr {
    /// A copy with the same components.
    pub fn clone_addr(&self) -> (res: Addr)
        ensures
            spec_addr_view(res) == spec_addr_view(*self),
    {
        let mut parts: Vec<AddrPart> = Vec::new();
        let mut i: usize = 0;
        while i < self.parts.len()
            invariant
                i <= self.parts@.len(),
                parts@.map_values(|p: AddrPart| spec_part_view(p))
                    == self.parts@.take(i as int).map_values(|p: AddrPart| spec_part_view(p)),
            decreases self.parts@.len() - i,
        {
            let ghost before = parts@;
            let part = copy_part(&self.parts[i]);
            parts.push(part);
            assert(parts@.map_values(|p: AddrPart| spec_part_view(p))
                =~= before.map_values(|p: AddrPart| spec_part_view(p)).push(spec_part_view(part)));
            assert(self.parts@.take(i + 1) =~= self.parts@.take(i as int).push(self.parts@[i as int]));
            assert(self.parts@.take(i + 1).map_values(|p: AddrPart| spec_part_view(p))
                =~= self.parts@.take(i as int).map_values(|p: AddrPart| spec_part_view(p)).push(
                spec_part_view(self.parts@[i as int]),
            ));
            i = i + 1;
        }
        assert(self.parts@.take(self.parts@.len() as int) =~= self.parts@);
        Addr { parts }
    }
}

/// An address as the views of its components.
pub type AddrView = Seq<(int, Seq<u8>)>;

/// The addresses accepted for peer `pid` among the first `n` texts: those
/// that parse, tied to the peer and allowed by the policy.
pub open spec fn spec_accepted_addrs(raws: Seq<String>, pid: Seq<u8>, allow_private: bool, allow_loopback: bool, n: int) -> Seq<AddrView>
    decreases n,
{
    if n <= 0 {
        Seq::empty()
    } else {
        let prev = spec_accepted_addrs(raws, pid, allow_private, allow_loopback, n - 1);
        match multiaddr_parse(raws[n - 1]@) {
            None => prev,
            Some(a) => {
                let v = spec_normalize(spec_addr_view(a), pid);
                if spec_view_allowed(v, allow_private, allow_loopback) { prev.push(v) } else { prev }
            },
        }
    }
}

/// The peers accepted among the first `n` of a response: those whose id
/// parses and is not ours, with their accepted addresses, when there is one.
pub open spec fn spec_parsed_peers(peers: Seq<PexPeer>, policy: PexPolicy, self_peer: Seq<u8>, n: int) -> Seq<(Seq<u8>, Seq<AddrView>)>
    decreases n,
{
    if n <= 0 {
        Seq::empty()
    } else {
        let prev = spec_parsed_peers(peers, policy, self_peer, n - 1);
        let peer = peers[n - 1];
        match peer_id_parse(peer.peer_id@) {
            None => prev,
            Some(pid) => if pid == self_peer {
                prev
            } else {
                let addrs = spec_accepted_addrs(peer.addrs@, pid, policy.allow_private_addrs, policy.allow_loopback_addrs,
                    spec_prefix(peer.addrs@, policy.max_addrs_per_peer as int).len() as int);
                if addrs.len() == 0 { prev } else { prev.push((pid, addrs)) }
            },
        }
    }
}

/// The view of a parsed response.
pub open spec fn spec_parsed_view(out: Seq<(Vec<u8>, Vec<Addr>)>) -> Seq<(Seq<u8>, Seq<AddrView>)> {
    out.map_values(|e: (Vec<u8>, Vec<Addr>)| (e.0@, e.1@.map_values(|a: Addr| spec_addr_view(a))))
}

fn accepted_addrs(raws: &Vec<String>, pid: &Vec<u8>, policy: &PexPolicy) -> (res: Vec<Addr>)
    ensures
        res@.map_values(|a: Addr| spec_addr_view(a)) == spec_accepted_addrs(raws@, pid@, policy.allow_private_addrs,
            policy.allow_loopback_addrs, spec_prefix(raws@, policy.max_addrs_per_peer as int).len() as int),
{
    let limit = if policy.max_addrs_per_peer < raws.len() { policy.max_addrs_per_peer } else { raws.len() };
    let mut out: Vec<Addr> = Vec::new();
    let mut i: usize = 0;
    while i < limit
        invariant
            limit <= raws@.len(),
            limit == spec_prefix(raws@, policy.max_addrs_per_peer as int).len(),
            i <= limit,
            out@.map_values(|a: Addr| spec_addr_view(a)) == spec_accepted_addrs(raws@, pid@,
                policy.allow_private_addrs, policy.allow_loopback_addrs, i as int),
        decreases limit - i,
    {
        match parse_multiaddr(raws[i].as_str()) {
            None => {},
            Some(parsed) => {
                let addr = normalize_p2p_component(parsed, pid);
                if view_allowed(&addr, policy.allow_private_addrs, policy.allow_loopback_addrs) {
                    let ghost before = out@;
                    out.push(addr);
                    assert(out@.map_values(|a: Addr| spec_addr_view(a)) =~= before.map_values(|a: Addr| spec_addr_view(a)).push(
                        spec_addr_view(addr),
                    ));
                }
            },
        }
        i = i + 1;
    }
    out
}

/// The peers of a received response that may be dialled: at most the
/// policy's number of peers and of addresses per peer are looked at; peers
/// whose id does not parse, our own id, addresses that do not parse or are
/// not allowed, and peers left without addresses are dropped; each address
/// is tied to the peer that shared it.
pub fn parse_response(resp: PexResponse, policy: &PexPolicy, self_peer: &Vec<u8>) -> (res: Vec<(Vec<u8>, Vec<Addr>)>)
    ensures
        spec_parsed_view(res@) == spec_parsed_peers(resp.peers@, *policy, self_peer@,
            spec_prefix(resp.peers@, policy.max_peers_per_response as int).len() as int),
{
    let peers = &resp.peers;
    let limit = if policy.max_peers_per_response < peers.len() { policy.max_peers_per_response } else { peers.len() };
    let mut out: Vec<(Vec<u8>, Vec<Addr>)> = Vec::new();
    let mut i: usize = 0;
    while i < limit
        invariant
            limit <= peers@.len(),
            limit == spec_prefix(peers@, policy.max_peers_per_response as int).len(),
            i <= limit,
            spec_parsed_view(out@) == spec_parsed_peers(peers@, *policy, self_peer@, i as int),
        decreases limit - i,
    {
        let peer = &peers[i];
        match parse_peer_id(peer.peer_id.as_str()) {
            None => {},
            Some(pid) => {
                if !bytes_eq(&pid, self_peer) {
                    let addrs = accepted_addrs(&peer.addrs, &pid, policy);
                    if addrs.len() > 0 {
                        let ghost before = out@;
                        let ghost entry = (pid@, addrs@.map_values(|a: Addr| spec_addr_view(a)));
                        out.push((pid, addrs));
                        assert(spec_parsed_view(out@) =~= spec_parsed_view(before).push(entry));
                    } else {
                        assert(addrs@.map_values(|a: Addr| spec_addr_view(a)).len() == 0);
                    }
                }
            },
        }
        i = i + 1;
    }
    out
}

/// The texts of the first `n` addresses that may be shared.
pub open spec fn spec_shared_addrs(addrs: Seq<Addr>, allow_private: bool, allow_loopback: bool, n: int) -> Seq<Seq<char>>
    decreases n,
{
    if n <= 0 {
        Seq::empty()
    } else {
        let prev = spec_shared_addrs(addrs, allow_private, allow_loopback, n - 1);
        let a = addrs[n - 1];
        if !spec_addr_allowed(a.parts@, allow_private, allow_loopback) {
            prev
        } else {
            match multiaddr_text(spec_addr_view(a)) {
                None => prev,
                Some(t) => prev.push(t),
            }
        }
    }
}

/// The peers offered among the first `n` candidates, in candidate order:
/// neither ours nor the requester's, with their shareable addresses when
/// there is one, and no more than `limit` of them.
pub open spec fn spec_offered(
    cands: Seq<(Vec<u8>, Vec<Addr>)>,
    policy: PexPolicy,
    limit: int,
    self_peer: Seq<u8>,
    requester: Seq<u8>,
    n: int,
) -> Seq<(Seq<char>, Seq<Seq<char>>)>
    decreases n,
{
    if n <= 0 {
        Seq::empty()
    } else {
        let prev = spec_offered(cands, policy, limit, self_peer, requester, n - 1);
        let (peer, addrs) = cands[n - 1];
        if prev.len() >= limit || peer@ == self_peer || peer@ == requester {
            prev
        } else {
            let out = spec_shared_addrs(addrs@, policy.allow_private_addrs, policy.allow_loopback_addrs,
                spec_prefix(addrs@, policy.max_addrs_per_peer as int).len() as int);
            if out.len() == 0 {
                prev
            } else {
                match peer_id_text(peer@) {
                    None => prev,
                    Some(t) => prev.push((t, out)),
                }
            }
        }
    }
}

/// The view of a response.
pub open spec fn spec_response_view(resp: PexResponse) -> Seq<(Seq<char>, Seq<Seq<char>>)> {
    resp.peers@.map_values(|p: PexPeer| (p.peer_id@, p.addrs@.map_values(|s: String| s@)))
}

proof fn lemma_offered_full(
    cands: Seq<(Vec<u8>, Vec<Addr>)>,
    policy: PexPolicy,
    limit: int,
    self_peer: Seq<u8>,
    requester: Seq<u8>,
    i: int,
    n: int,
)
    requires
        0 <= i <= n,
        spec_offered(cands, policy, limit, self_peer, requester, i).len() >= limit,
    ensures
        spec_offered(cands, policy, limit, self_peer, requester, n) == spec_offered(cands, policy, limit, self_peer, requester, i),
    decreases n - i,
{
    if n > i {
        lemma_offered_full(cands, policy, limit, self_peer, requester, i, n - 1);
    }
}

fn shared_addrs(addrs: &Vec<Addr>, policy: &PexPolicy) -> (res: Vec<String>)
    ensures
        res@.map_values(|s: String| s@) == spec_shared_addrs(addrs@, policy.allow_private_addrs,
            policy.allow_loopback_addrs, spec_prefix(addrs@, policy.max_addrs_per_peer as int).len() as int),
{
    let limit = if policy.max_addrs_per_peer < addrs.len() { policy.max_addrs_per_peer } else { addrs.len() };
    let mut out: Vec<String> = Vec::new();
    let mut i: usize = 0;
    while i < limit
        invariant
            limit <= addrs@.len(),
            limit == spec_prefix(addrs@, policy.max_addrs_per_peer as int).len(),
            i <= limit,
            out@.map_values(|s: String| s@) == spec_shared_addrs(addrs@, policy.allow_private_addrs,
                policy.allow_loopback_addrs, i as int),
        decreases limit - i,
    {
        if addr_allowed(&addrs[i], policy.allow_private_addrs, policy.allow_loopback_addrs) {
            match format_multiaddr(&addrs[i]) {
                None => {},
                Some(text) => {
                    let ghost before = out@;
                    out.push(text);
                    assert(out@.map_values(|s: String| s@) =~= before.map_values(|s: String| s@).push(text@));
                },
            }
        }
        i = i + 1;
    }
    out
}

/// The response to a peer exchange request: candidates are taken in the
/// given order (the caller shuffles them); ours and the requester's are
/// skipped, at most the policy's number of addresses per peer is looked at
/// and only allowed ones are shared, peers without any are skipped, and at
/// most `min(want, max_peers_per_response)` peers are offered.
pub fn build_response(
    candidates: &Vec<(Vec<u8>, Vec<Addr>)>,
    policy: &PexPolicy,
    want: usize,
    self_peer: &Vec<u8>,
    requester: &Vec<u8>,
) -> (res: PexResponse)
    ensures
        spec_response_view(res) == spec_offered(candidates@, *policy,
            (if want < policy.max_peers_per_response { want } else { policy.max_peers_per_response }) as int,
            self_peer@, requester@, candidates@.len() as int),
{
    let limit = if want < policy.max_peers_per_response { want } else { policy.max_peers_per_response };
    let mut peers: Vec<PexPeer> = Vec::new();
    let mut i: usize = 0;
    while i < candidates.len() && peers.len() < limit
        invariant
            i <= candidates@.len(),
            spec_response_view(PexResponse { peers }) == spec_offered(candidates@, *policy, limit as int,
                self_peer@, requester@, i as int),
        decreases candidates@.len() - i,
    {
        let ghost prev = spec_offered(candidates@, *policy, limit as int, self_peer@, requester@, i as int);
        assert(prev.len() == peers@.len());
        let peer = &candidates[i].0;
        if !bytes_eq(peer, self_peer) && !bytes_eq(peer, requester) {
            let addr_out = shared_addrs(&candidates[i].1, policy);
            if addr_out.len() > 0 {
                match format_peer_id(peer.as_slice()) {
                    None => {},
                    Some(text) => {
                        let ghost before = peers@;
                        let ghost entry = (text@, addr_out@.map_values(|s: String| s@));
                        peers.push(PexPeer { peer_id: text, addrs: addr_out });
                        assert(spec_response_view(PexResponse { peers }) =~= before.map_values(
                            |p: PexPeer| (p.peer_id@, p.addrs@.map_values(|s: String| s@)),
                        ).push(entry));
                    },
                }
            } else {
                assert(addr_out@.map_values(|s: String| s@).len() == 0);
            }
        }
        i = i + 1;
    }
    proof {
        if i < candidates@.len() {
            lemma_offered_full(candidates@, *policy, limit as int, self_peer@, requester@, i as int, candidates@.len() as int);
        }
    }
    PexResponse { peers }
}

proof fn lemma_accepted_addrs_safe(raws: Seq<String>, pid: Seq<u8>, allow_private: bool, allow_loopback: bool, n: int)
    ensures
        forall|k: int| 0 <= k < spec_accepted_addrs(raws, pid, allow_private, allow_loopback, n).len() ==> {
            let a = #[trigger] spec_accepted_addrs(raws, pid, allow_private, allow_loopback, n)[k];
            &&& spec_view_allowed(a, allow_private, allow_loopback)
            &&& a.len() > 0
            &&& a.last() == (1int, pid)
        },
    decreases n,
{
    if n > 0 {
        lemma_accepted_addrs_safe(raws, pid, allow_private, allow_loopback, n - 1);
        let prev = spec_accepted_addrs(raws, pid, allow_private, allow_loopback, n - 1);
        match multiaddr_parse(raws[n - 1]@) {
            None => {},
            Some(a) => {
                let v = spec_normalize(spec_addr_view(a), pid);
                assert(v.last() == (1int, pid));
                if spec_view_allowed(v, allow_private, allow_loopback) {
                    let cur = prev.push(v);
                    assert forall|k: int| 0 <= k < cur.len() implies cur[k] == (if k < prev.len() { prev[k] } else { v }) by {}
                }
            },
        }
    }
}

/// What peer exchange accepts is safe to dial: our own id never comes back,
/// and every address returned is allowed by the policy and ends with the
/// peer component of the peer that it was shared for.
pub proof fn lemma_parsed_peers_safe(peers: Seq<PexPeer>, policy: PexPolicy, self_peer: Seq<u8>, n: int)
    ensures
        forall|k: int| 0 <= k < spec_parsed_peers(peers, policy, self_peer, n).len() ==> {
            let e = #[trigger] spec_parsed_peers(peers, policy, self_peer, n)[k];
            &&& e.0 != self_peer
            &&& e.1.len() > 0
            &&& forall|j: int| 0 <= j < e.1.len() ==> {
                &&& spec_view_allowed(#[trigger] e.1[j], policy.allow_private_addrs, policy.allow_loopback_addrs)
                &&& e.1[j].len() > 0
                &&& e.1[j].last() == (1int, e.0)
            }
        },
    decreases n,
{
    if n > 0 {
        lemma_parsed_peers_safe(peers, policy, self_peer, n - 1);
        let peer = peers[n - 1];
        let prev = spec_parsed_peers(peers, policy, self_peer, n - 1);
        match peer_id_parse(peer.peer_id@) {
            None => {},
            Some(pid) => {
                let m = spec_prefix(peer.addrs@, policy.max_addrs_per_peer as int).len() as int;
                lemma_accepted_addrs_safe(peer.addrs@, pid, policy.allow_private_addrs, policy.allow_loopback_addrs, m);
                let addrs = spec_accepted_addrs(peer.addrs@, pid, policy.allow_private_addrs, policy.allow_loopback_addrs, m);
                if pid != self_peer && addrs.len() > 0 {
                    let cur = prev.push((pid, addrs));
                    assert forall|k: int| 0 <= k < cur.len() implies cur[k] == (if k < prev.len() { prev[k] } else { (pid, addrs) }) by {}
                }
            },
        }
    }
}

} // verus!
