//! Which network interfaces can carry the mDNS advertisement, and the
//! address to bind to.

use vstd::prelude::*;
use crate::registry::IpAddress;

verus! {

/// What the operating system reports of one network interface.
#[derive(Debug, Clone)]
pub struct NetInterface {
    pub name: String,
    pub is_up: bool,
    pub is_loopback: bool,
    pub is_running: bool,
    pub is_multicast: bool,
    pub is_broadcast: bool,
    pub ips: Vec<IpAddress>,
}

/// A live interface with an address that can multicast and broadcast.
pub open spec fn mdns_capable(i: NetInterface) -> bool {
    !i.is_loopback && i.ips@.len() > 0 && i.is_running && i.is_multicast && i.is_broadcast
}

/// An interface other than loopback that cannot carry the advertisement.
pub open spec fn mdns_incapable(i: NetInterface) -> bool {
    !i.is_loopback && !mdns_capable(i)
}

/// The names of the interfaces of `s` that satisfy `capable` (or, when
/// `capable` is false, that are incapable), in order.
pub open spec fn names_where(s: Seq<NetInterface>, capable: bool) -> Seq<Seq<char>>
    decreases s.len(),
{
    if s.len() == 0 {
        seq![]
    } else {
        let i = s.last();
        let keep = if capable {
            mdns_capable(i)
        } else {
            mdns_incapable(i)
        };
        names_where(s.drop_last(), capable) + if keep {
            seq![i.name@]
        } else {
            seq![]
        }
    }
}

fn is_capable(i: &NetInterface) -> (r: bool)
    ensures
        r == mdns_capable(*i),
{
    !i.is_loopback && i.ips.len() > 0 && i.is_running && i.is_multicast && i.is_broadcast
}

fn names_matching(interfaces: &[NetInterface], capable: bool) -> (r: Vec<String>)
    ensures
        r@.len() == names_where(interfaces@, capable).len(),
        forall|k: int| 0 <= k < r@.len() ==> #[trigger] r@[k]@ == names_where(interfaces@, capable)[k],
{
    let mut out: Vec<String> = Vec::new();
    let mut i: usize = 0;
    assert(interfaces@.subrange(0, 0) =~= Seq::<NetInterface>::empty());
    while i < interfaces.len()
        invariant
            i <= interfaces@.len(),
            out@.len() == names_where(interfaces@.subrange(0, i as int), capable).len(),
            forall|k: int|
                0 <= k < out@.len() ==> #[trigger] out@[k]@ == names_where(
                    interfaces@.subrange(0, i as int),
                    capable,
                )[k],
        decreases interfaces@.len() - i,
    {
        let ghost prefix = interfaces@.subrange(0, i as int);
        let iface = &interfaces[i];
        let c = is_capable(iface);
        let keep = if capable {
            c
        } else {
            !iface.is_loopback && !c
        };
        if keep {
            out.push(iface.name.clone());
        }
        i = i + 1;
        proof {
            let next = interfaces@.subrange(0, i as int);
            assert(next.drop_last() =~= prefix);
            assert(next.last() == *iface);
        }
    }
    assert(interfaces@.subrange(0, i as int) =~= interfaces@);
    out
}

/// The names of the interfaces that can carry the advertisement.
pub fn enumerate_mdns_capable_interfaces(interfaces: &[NetInterface]) -> (r: Vec<String>)
    ensures
        r@.len() == names_where(interfaces@, true).len(),
        forall|k: int| 0 <= k < r@.len() ==> #[trigger] r@[k]@ == names_where(interfaces@, true)[k],
{
    names_matching(interfaces, true)
}

/// The names of the interfaces, loopback aside, to keep the advertisement
/// off.
pub fn enumerate_mdns_incapable_interfaces(interfaces: &[NetInterface]) -> (r: Vec<String>)
    ensures
        r@.len() == names_where(interfaces@, false).len(),
        forall|k: int|
            0 <= k < r@.len() ==> #[trigger] r@[k]@ == names_where(interfaces@, false)[k],
{
    names_matching(interfaces, false)
}

pub open spec fn is_v4(a: IpAddress) -> bool {
    a is V4
}

/// The interface is called `name`, is up and is not loopback.
pub open spec fn named_up(i: NetInterface, name: Seq<char>) -> bool {
    i.name@ == name && i.is_up && !i.is_loopback
}

/// The first address of `ips` of the wanted family.
fn first_address(ips: &Vec<IpAddress>, v4: bool) -> (r: Option<IpAddress>)
    ensures
        match r {
            Some(a) => exists|k: int|
                0 <= k < ips@.len() && ips@[k] == a && is_v4(a) == v4 && forall|j: int|
                    0 <= j < k ==> is_v4(#[trigger] ips@[j]) != v4,
            None => forall|k: int| 0 <= k < ips@.len() ==> is_v4(#[trigger] ips@[k]) != v4,
        },
{
    let mut i: usize = 0;
    while i < ips.len()
        invariant
            i <= ips@.len(),
            forall|j: int| 0 <= j < i ==> is_v4(#[trigger] ips@[j]) != v4,
        decreases ips@.len() - i,
    {
        let a = ips[i];
        let a_v4 = match a {
            IpAddress::V4(_) => true,
            IpAddress::V6(_) => false,
        };
        if a_v4 == v4 {
            return Some(a);
        }
        i = i + 1;
    }
    None
}

/// The address of the first interface called `name` that is up and not
/// loopback: its first IPv4 address when `prefer_ipv4`, else its first IPv6
/// address.
pub fn get_ip_by_name(interfaces: &[NetInterface], name: &String, prefer_ipv4: bool) -> (r: Option<
    IpAddress,
>)
    ensures
        match r {
            Some(a) => exists|i: int|
                0 <= i < interfaces@.len() && #[trigger] named_up(interfaces@[i], name@) && (forall|
                    j: int,
                | 0 <= j < i ==> !#[trigger] named_up(interfaces@[j], name@)) && exists|k: int|
                    0 <= k < interfaces@[i].ips@.len() && #[trigger] interfaces@[i].ips@[k] == a
                        && is_v4(a) == prefer_ipv4 && forall|m: int|
                        0 <= m < k ==> is_v4(#[trigger] interfaces@[i].ips@[m]) != prefer_ipv4,
            None => forall|i: int|
                0 <= i < interfaces@.len() && #[trigger] named_up(interfaces@[i], name@) && (forall|
                    j: int,
                | 0 <= j < i ==> !#[trigger] named_up(interfaces@[j], name@)) ==> forall|k: int|
                    0 <= k < interfaces@[i].ips@.len() ==> is_v4(#[trigger] interfaces@[i].ips@[k])
                        != prefer_ipv4,
        },
{
    let mut i: usize = 0;
    while i < interfaces.len()
        invariant
            i <= interfaces@.len(),
            forall|j: int| 0 <= j < i ==> !#[trigger] named_up(interfaces@[j], name@),
        decreases interfaces@.len() - i,
    {
        let iface = &interfaces[i];
        if *name == iface.name && iface.is_up && !iface.is_loopback {
            assert(named_up(interfaces@[i as int], name@));
            return first_address(&iface.ips, prefer_ipv4);
        }
        i = i + 1;
    }
    None
}

/// The interface has no IPv4 address.
pub open spec fn no_v4(i: NetInterface) -> bool {
    forall|k: int| 0 <= k < i.ips@.len() ==> !is_v4(#[trigger] i.ips@[k])
}

/// The address to bind when none is configured: the first IPv4 address of
/// the first interface that can carry the advertisement and has one.
pub fn select_bind_ip(interfaces: &[NetInterface]) -> (r: Option<IpAddress>)
    ensures
        match r {
            Some(a) => exists|i: int|
                0 <= i < interfaces@.len() && #[trigger] mdns_capable(interfaces@[i]) && (forall|
                    j: int,
                | 0 <= j < i && #[trigger] mdns_capable(interfaces@[j]) ==> no_v4(interfaces@[j]))
                    && exists|k: int|
                    0 <= k < interfaces@[i].ips@.len() && #[trigger] interfaces@[i].ips@[k] == a
                        && is_v4(a) && forall|m: int|
                        0 <= m < k ==> !is_v4(#[trigger] interfaces@[i].ips@[m]),
            None => forall|i: int|
                0 <= i < interfaces@.len() && #[trigger] mdns_capable(interfaces@[i]) ==> no_v4(
                    interfaces@[i],
                ),
        },
{
    let mut i: usize = 0;
    while i < interfaces.len()
        invariant
            i <= interfaces@.len(),
            forall|j: int|
                0 <= j < i && #[trigger] mdns_capable(interfaces@[j]) ==> no_v4(interfaces@[j]),
        decreases interfaces@.len() - i,
    {
        let iface = &interfaces[i];
        if is_capable(iface) {
            assert(mdns_capable(interfaces@[i as int]));
            match first_address(&iface.ips, true) {
                Some(a) => return Some(a),
                None => {},
            }
        }
        i = i + 1;
    }
    None
}

} // verus!
