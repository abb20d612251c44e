//! Node start-up rules: when the listen address is taken, the node tries the
//! next TCP port.

use vstd::prelude::*;
use crate::pex::{spec_part_view, Addr, AddrPart};

verus! {

/// A component with its TCP port, if it is one, raised by one.
pub open spec fn spec_bump_part(p: AddrPart) -> AddrPart {
    match p {
        AddrPart::Tcp(port) => AddrPart::Tcp((port + 1) as u16),
        other => other,
    }
}

/// Whether some component of the address is a TCP port.
pub open spec fn spec_has_tcp(parts: Seq<AddrPart>) -> bool {
    exists|i: int| 0 <= i < parts.len() && #[trigger] parts[i] is Tcp
}

/// Whether every TCP port of the address can still be raised by one.
pub open spec fn spec_ports_below_max(parts: Seq<AddrPart>) -> bool {
    forall|i: int| 0 <= i < parts.len() && #[trigger] parts[i] is Tcp ==> parts[i]->Tcp_0 < u16::MAX
}

/// The address to listen on after `addr` failed: the same components with
/// every TCP port raised by one. `None` when the address has no TCP port, or
/// one of them is already the largest.
pub fn bump_tcp_port(addr: &Addr) -> (res: Option<Addr>)
    ensures
        res is Some <==> spec_has_tcp(addr.parts@) && spec_ports_below_max(addr.parts@),
        res matches Some(next) ==> (
            next.parts@.len() == addr.parts@.len()
            && forall|i: int| 0 <= i < addr.parts@.len() ==>
                spec_part_view(#[trigger] next.parts@[i]) == spec_part_view(spec_bump_part(addr.parts@[i]))
        ),
{
    let mut parts: Vec<AddrPart> = Vec::new();
    let mut bumped = false;
    let mut i: usize = 0;
    while i < addr.parts.len()
        invariant
            i <= addr.parts@.len(),
            parts@.len() == i,
            forall|j: int| 0 <= j < i ==>
                spec_part_view(#[trigger] parts@[j]) == spec_part_view(spec_bump_part(addr.parts@[j])),
            bumped <==> exists|j: int| 0 <= j < i && #[trigger] addr.parts@[j] is Tcp,
            forall|j: int| 0 <= j < i && #[trigger] addr.parts@[j] is Tcp ==> addr.parts@[j]->Tcp_0 < u16::MAX,
        decreases addr.parts@.len() - i,
    {
        match &addr.parts[i] {
            AddrPart::Tcp(port) => {
                if *port == u16::MAX {
                    return None;
                }
                parts.push(AddrPart::Tcp(*port + 1));
                bumped = true;
            },
            AddrPart::Ip4(o) => parts.push(AddrPart::Ip4(*o)),
            AddrPart::Ip6(o) => parts.push(AddrPart::Ip6(*o)),
            AddrPart::P2p(b) => parts.push(AddrPart::P2p(crate::pex::copy_bytes(b))),
            AddrPart::Other(b) => parts.push(AddrPart::Other(crate::pex::copy_bytes(b))),
        }
        i = i + 1;
    }
    if bumped {
        Some(Addr { parts })
    } else {
        None
    }
}

/// The port of the first TCP component of an address.
pub fn port_from_multiaddr(addr: &Addr) -> (res: Option<u16>)
    ensures
        res is None <==> !spec_has_tcp(addr.parts@),
        res matches Some(p) ==> exists|i: int|
            0 <= i < addr.parts@.len() && #[trigger] addr.parts@[i] == AddrPart::Tcp(p)
            && forall|j: int| 0 <= j < i ==> !(#[trigger] addr.parts@[j] is Tcp),
{
    let mut i: usize = 0;
    while i < addr.parts.len()
        invariant
            i <= addr.parts@.len(),
            forall|j: int| 0 <= j < i ==> !(#[trigger] addr.parts@[j] is Tcp),
        decreases addr.parts@.len() - i,
    {
        if let AddrPart::Tcp(p) = &addr.parts[i] {
            assert(addr.parts@[i as int] == AddrPart::Tcp(*p));
            return Some(*p);
        }
        i = i + 1;
    }
    None
}

} // verus!
