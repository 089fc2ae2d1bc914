//! LAN discovery over UDP broadcast.
//!
//! A client broadcasts a `Query`; every host on the subnet answers with an
//! `Announce` straight back to the sender. That is the whole protocol. mDNS
//! would be the "proper" answer but drags in a much larger dependency and a
//! second daemon's worth of behaviour for something that has to work on exactly
//! one subnet.
//!
//! Broadcast has to go out per-interface: a machine on both WiFi and Ethernet
//! has two different broadcast addresses, and 255.255.255.255 is dropped by
//! plenty of stacks.

use vstd::prelude::*;

use crate::order;
use crate::order::Ranked;
use crate::protocol;
use crate::protocol::{Beacon, DeviceId, PROTOCOL_VERSION};
use crate::text;

pub mod laws;

verus! {

/// A host that answered a query.
#[derive(Debug)]
pub struct Found {
    pub id: String,
    pub name: String,
    pub os: String,
    pub address: String,
    pub port: u16,
    pub needs_code: bool,
}

/// By name.
impl Ranked for Found {
    open spec fn before(&self, other: &Self) -> bool {
        text::precedes(self.name@, other.name@)
    }

    fn is_before(&self, other: &Self) -> bool {
        text::is_before(self.name.as_str(), other.name.as_str())
    }

    proof fn asymmetric(a: &Self, b: &Self) {
        if b.before(a) {
            text::precedes_transitive(a.name@, b.name@, a.name@);
            text::precedes_irreflexive(a.name@);
        }
    }

    proof fn transitive(a: &Self, b: &Self, c: &Self) {
        text::not_precedes_transitive(a.name@, b.name@, c.name@);
    }
}

/// 255.255.255.255, most significant byte first.
pub const BROADCAST: u32 = 0xFFFF_FFFF;

/// A network interface, as far as broadcasting is concerned.
#[derive(Clone, Copy, Debug, PartialEq, Eq, Structural)]
pub struct Interface {
    pub loopback: bool,
    /// Its IPv4 broadcast address, if it has one, most significant byte first.
    pub broadcast: Option<u32>,
}

/// The distinct broadcast addresses of the first interfaces, in order.
pub open spec fn reachable(interfaces: Seq<Interface>) -> Seq<u32>
    decreases interfaces.len(),
{
    if interfaces.len() == 0 {
        seq![]
    } else {
        let rest = reachable(interfaces.drop_last());
        match interfaces.last() {
            Interface { loopback: false, broadcast: Some(address) } => if rest.contains(address) {
                rest
            } else {
                rest.push(address)
            },
            _ => rest,
        }
    }
}

/// Every IPv4 broadcast address this machine can reach, with the global one as a
/// fallback where no interface reports a broadcast address.
pub fn broadcast_targets(interfaces: &Vec<Interface>) -> (r: Vec<u32>)
    ensures
        r@ == if reachable(interfaces@).len() == 0 {
            seq![BROADCAST]
        } else {
            reachable(interfaces@)
        },
{
    let mut targets: Vec<u32> = Vec::new();
    let mut i: usize = 0;
    assert(interfaces@.take(0) =~= Seq::<Interface>::empty());
    assert(targets@ =~= reachable(interfaces@.take(0)));
    while i < interfaces.len()
        invariant
            i <= interfaces@.len(),
            targets@ == reachable(interfaces@.take(i as int)),
        decreases interfaces@.len() - i,
    {
        assert(interfaces@.take(i + 1).drop_last() =~= interfaces@.take(i as int));
        assert(interfaces@.take(i + 1).last() == interfaces@[i as int]);
        if !interfaces[i].loopback {
            if let Some(address) = interfaces[i].broadcast {
                if !holds(&targets, address) {
                    targets.push(address);
                }
            }
        }
        i += 1;
    }
    assert(interfaces@.take(interfaces@.len() as int) =~= interfaces@);
    if targets.len() == 0 {
        targets.push(BROADCAST);
        assert(targets@ =~= seq![BROADCAST]);
    }
    targets
}

fn holds(list: &Vec<u32>, address: u32) -> (r: bool)
    ensures
        r == list@.contains(address),
{
    let mut i: usize = 0;
    while i < list.len()
        invariant
            i <= list@.len(),
            forall|k: int| 0 <= k < i ==> #[trigger] list@[k] != address,
        decreases list@.len() - i,
    {
        if list[i] == address {
            assert(list@[i as int] == address);
            return true;
        }
        i += 1;
    }
    false
}

/// No address is asked twice, and every interface that can be reached is.
pub proof fn every_interface_is_asked_once(interfaces: Seq<Interface>)
    ensures
        reachable(interfaces).no_duplicates(),
        forall|i: int|
            0 <= i < interfaces.len() && !(#[trigger] interfaces[i]).loopback
                && interfaces[i].broadcast is Some ==> reachable(interfaces).contains(
                interfaces[i].broadcast->0,
            ),
    decreases interfaces.len(),
{
    if interfaces.len() > 0 {
        let rest = interfaces.drop_last();
        every_interface_is_asked_once(rest);
        let before = reachable(rest);
        let after = reachable(interfaces);
        assert forall|i: int|
            0 <= i < interfaces.len() && !(#[trigger] interfaces[i]).loopback
                && interfaces[i].broadcast is Some implies after.contains(
            interfaces[i].broadcast->0,
        ) by {
            let address = interfaces[i].broadcast->0;
            if i < rest.len() {
                assert(rest[i] == interfaces[i]);
                let k = choose|k: int| 0 <= k < before.len() && before[k] == address;
                assert(after[k] == address);
            } else if !before.contains(address) {
                assert(after[before.len() as int] == address);
            }
        }
    }
}

/// What a client asks.
pub fn query() -> (r: Beacon)
    ensures
        r == (Beacon::Query { protocol: PROTOCOL_VERSION }),
{
    Beacon::Query { protocol: PROTOCOL_VERSION }
}

/// What a host answers: only a query of the version it speaks, and then with who
/// it is and whether it takes new devices.
///
/// Answering queries rather than announcing on a timer means an idle host is
/// silent, and a client that just opened the app still gets an answer within a
/// round trip.
pub fn answer(
    heard: &Beacon,
    id: &DeviceId,
    name: &str,
    os: &str,
    port: u16,
    accepting: bool,
) -> (r: Option<Beacon>)
    ensures
        r is Some <==> *heard == (Beacon::Query { protocol: PROTOCOL_VERSION }),
        r is Some ==> {
            r->0 matches Beacon::Announce {
                protocol,
                id: who,
                name: called,
                os: system,
                port: at,
                needs_code,
            } && {
                &&& protocol == PROTOCOL_VERSION
                &&& who == *id
                &&& called@ == name@
                &&& system@ == os@
                &&& at == port
                &&& needs_code == accepting
            }
        },
{
    match heard {
        Beacon::Query { protocol } => {
            if *protocol != PROTOCOL_VERSION {
                return None;
            }
            Some(
                Beacon::Announce {
                    protocol: PROTOCOL_VERSION,
                    id: *id,
                    name: name.to_owned(),
                    os: os.to_owned(),
                    port,
                    needs_code: accepting,
                },
            )
        },
        _ => None,
    }
}

/// The ids in a list of hosts.
pub open spec fn ids(found: Seq<Found>) -> Seq<Seq<char>> {
    found.map_values(|f: Found| f.id@)
}

/// The answer of a host that a scan takes in.
pub open spec fn is_fresh_answer(found: Seq<Found>, heard: Beacon) -> bool {
    heard matches Beacon::Announce { protocol, id, .. } && protocol == PROTOCOL_VERSION && !ids(
        found,
    ).contains(protocol::hex_of(id@))
}

/// A host as an answer describes it.
pub open spec fn describes(f: Found, heard: Beacon, address: Seq<char>) -> bool {
    heard matches Beacon::Announce { id, name, os, port, needs_code, .. } && {
        &&& f.id@ == protocol::hex_of(id@)
        &&& f.name == name
        &&& f.os == os
        &&& f.address@ == address
        &&& f.port == port
        &&& f.needs_code == needs_code
    }
}

/// Takes in what came back during a scan. Hosts are keyed by device id, so a
/// machine reachable on two interfaces shows up once rather than twice.
pub fn note(found: &mut Vec<Found>, heard: Beacon, address: String)
    ensures
        if is_fresh_answer(old(found)@, heard) {
            &&& final(found)@.len() == old(found)@.len() + 1
            &&& final(found)@.drop_last() == old(found)@
            &&& describes(final(found)@.last(), heard, address@)
        } else {
            final(found)@ == old(found)@
        },
        ids(old(found)@).no_duplicates() ==> ids(final(found)@).no_duplicates(),
{
    match heard {
        Beacon::Announce { protocol, id, name, os, port, needs_code } => {
            if protocol != PROTOCOL_VERSION {
                return;
            }
            let hex = protocol::id_to_hex(&id);
            if knows(found, hex.as_str()) {
                return;
            }
            found.push(Found { id: hex, name, os, address, port, needs_code });
            assert(found@.drop_last() =~= old(found)@);
            assert(ids(found@) =~= ids(old(found)@).push(hex@));
        },
        _ => {},
    }
}

fn knows(found: &Vec<Found>, id: &str) -> (r: bool)
    ensures
        r == ids(found@).contains(id@),
{
    let mut i: usize = 0;
    while i < found.len()
        invariant
            i <= found@.len(),
            forall|k: int| 0 <= k < i ==> (#[trigger] found@[k]).id@ != id@,
        decreases found@.len() - i,
    {
        if *found[i].id.as_str() == *id {
            assert(ids(found@)[i as int] == id@);
            return true;
        }
        i += 1;
    }
    assert forall|k: int| 0 <= k < ids(found@).len() implies ids(found@)[k] != id@ by {
        assert(found@[k].id@ != id@);
    }
    false
}

/// What a scan found, by name.
pub fn scan_result(found: Vec<Found>) -> (r: Vec<Found>)
    ensures
        r@ == order::in_order(found@),
{
    order::sort(found)
}

} // verus!
