//! What the discovery driver and the settings screen take from a snapshot of
//! the local network interfaces.

use vstd::prelude::*;
use crate::discovery::texts;
use crate::registry::ALL_INTERFACES;

verus! {

/// One address of one local interface, as the operating system lists it.
#[derive(Debug)]
pub struct InterfaceAddress {
    pub interface_name: String,
    pub ip: String,
    pub is_ipv4: bool,
    pub broadcast: Option<String>,
}

/// A broadcast target that the user can pick.
#[derive(Debug)]
pub struct NetworkInterfaceInfo {
    pub name: String,
    pub ip: String,
    pub broadcast: String,
}

/// The name of the loopback interface, which is never offered.
pub const LOOPBACK_NAME: &'static str = "lo";

/// The name of the choice that stands for every interface.
pub const ALL_CHOICE_NAME: &'static str = "All";

/// A choice, mathematically: name, address and broadcast address.
pub type ChoiceView = (Seq<char>, Seq<char>, Seq<char>);

pub open spec fn choice_views(v: Seq<NetworkInterfaceInfo>) -> Seq<ChoiceView> {
    v.map_values(|c: NetworkInterfaceInfo| (c.name@, c.ip@, c.broadcast@))
}

/// An address is offered when it is an IPv4 address with a broadcast address,
/// on an interface other than loopback.
pub open spec fn is_offered(a: InterfaceAddress) -> bool {
    &&& a.interface_name@ != LOOPBACK_NAME@
    &&& a.is_ipv4
    &&& a.broadcast is Some
}

/// The choices that the addresses `s` give, in order.
pub open spec fn offered_choices(s: Seq<InterfaceAddress>) -> Seq<ChoiceView>
    decreases s.len(),
{
    if s.len() == 0 {
        Seq::empty()
    } else {
        let a = s.last();
        let init = offered_choices(s.drop_last());
        if is_offered(a) {
            init.push((a.interface_name@, a.ip@, a.broadcast->Some_0@))
        } else {
            init
        }
    }
}

/// The choice that stands for every interface.
pub open spec fn all_choice() -> ChoiceView {
    (ALL_CHOICE_NAME@, ALL_INTERFACES@, ALL_INTERFACES@)
}

/// The broadcast addresses among `s`, of any interface, in order.
pub open spec fn broadcasts_among(s: Seq<InterfaceAddress>) -> Seq<Seq<char>>
    decreases s.len(),
{
    if s.len() == 0 {
        Seq::empty()
    } else {
        let init = broadcasts_among(s.drop_last());
        match s.last().broadcast {
            Some(b) => init.push(b@),
            None => init,
        }
    }
}

/// The broadcast targets a user can pick from: each IPv4 address with a
/// broadcast address on a non-loopback interface, then the "All" choice.
pub fn get_network_interfaces(addresses: &Vec<InterfaceAddress>) -> (r: Vec<NetworkInterfaceInfo>)
    ensures
        choice_views(r@) == offered_choices(addresses@).push(all_choice()),
{
    let mut out: Vec<NetworkInterfaceInfo> = Vec::new();
    let lo = LOOPBACK_NAME.to_string();
    let mut i: usize = 0;
    while i < addresses.len()
        invariant
            i <= addresses@.len(),
            lo@ == LOOPBACK_NAME@,
            choice_views(out@) == offered_choices(addresses@.subrange(0, i as int)),
        decreases addresses@.len() - i,
    {
        let a = &addresses[i];
        assert(addresses@.subrange(0, i + 1).drop_last() =~= addresses@.subrange(0, i as int));
        if a.interface_name != lo && a.is_ipv4 {
            match &a.broadcast {
                Some(b) => {
                    out.push(
                        NetworkInterfaceInfo {
                            name: a.interface_name.clone(),
                            ip: a.ip.clone(),
                            broadcast: b.clone(),
                        },
                    );
                },
                None => {},
            }
        }
        i = i + 1;
        assert(choice_views(out@) =~= offered_choices(addresses@.subrange(0, i as int)));
    }
    assert(addresses@.subrange(0, i as int) =~= addresses@);
    let ghost before = choice_views(out@);
    out.push(
        NetworkInterfaceInfo {
            name: ALL_CHOICE_NAME.to_string(),
            ip: ALL_INTERFACES.to_string(),
            broadcast: ALL_INTERFACES.to_string(),
        },
    );
    assert(choice_views(out@) =~= before.push(all_choice()));
    out
}

/// Every broadcast address of every interface, loopback included: where an
/// announcement goes in "all interfaces" mode.
pub fn interface_broadcasts(addresses: &Vec<InterfaceAddress>) -> (r: Vec<String>)
    ensures
        texts(r@) == broadcasts_among(addresses@),
{
    let mut out: Vec<String> = Vec::new();
    let mut i: usize = 0;
    while i < addresses.len()
        invariant
            i <= addresses@.len(),
            texts(out@) == broadcasts_among(addresses@.subrange(0, i as int)),
        decreases addresses@.len() - i,
    {
        assert(addresses@.subrange(0, i + 1).drop_last() =~= addresses@.subrange(0, i as int));
        match &addresses[i].broadcast {
            Some(b) => {
                out.push(b.clone());
            },
            None => {},
        }
        i = i + 1;
        assert(texts(out@) =~= broadcasts_among(addresses@.subrange(0, i as int)));
    }
    assert(addresses@.subrange(0, i as int) =~= addresses@);
    out
}

/// The addresses of `s`, in order.
pub open spec fn ips_of(s: Seq<InterfaceAddress>) -> Seq<Seq<char>> {
    s.map_values(|a: InterfaceAddress| a.ip@)
}

/// Every address of every interface: the machine's own addresses, whose
/// announcements are not taken as peers.
pub fn local_addresses(addresses: &Vec<InterfaceAddress>) -> (r: Vec<String>)
    ensures
        texts(r@) == ips_of(addresses@),
{
    let mut out: Vec<String> = Vec::new();
    let mut i: usize = 0;
    while i < addresses.len()
        invariant
            i <= addresses@.len(),
            out@.len() == i,
            texts(out@) == ips_of(addresses@.subrange(0, i as int)),
        decreases addresses@.len() - i,
    {
        let ip = addresses[i].ip.clone();
        let ghost before = out@;
        out.push(ip);
        assert forall|k: int| 0 <= k <= i implies #[trigger] texts(out@)[k] == ips_of(addresses@.subrange(0, i + 1))[k] by {
            if k < i {
                assert(texts(before)[k] == ips_of(addresses@.subrange(0, i as int))[k]);
            }
        }
        i = i + 1;
        assert(texts(out@) =~= ips_of(addresses@.subrange(0, i as int)));
    }
    assert(addresses@.subrange(0, i as int) =~= addresses@);
    out
}

} // verus!
