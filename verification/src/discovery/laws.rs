//! What discovery promises.

use vstd::prelude::*;

use crate::discovery;
use crate::discovery::{Found, Interface};
use crate::order::Ranked;
use crate::protocol;
use crate::protocol::Beacon;
use crate::text;

verus! {

/// Whoever is asked is asked because an interface reaches them, and addresses are
/// asked in the order in which they first occur: every one before an address comes
/// from an interface before the first that has it.
pub proof fn only_interfaces_are_asked(interfaces: Seq<Interface>, k: int)
    requires
        0 <= k < discovery::reachable(interfaces).len(),
    ensures
        exists|i: int|
            {
                &&& 0 <= i < interfaces.len()
                &&& !(#[trigger] interfaces[i]).loopback
                &&& interfaces[i].broadcast == Some(discovery::reachable(interfaces)[k])
                &&& discovery::reachable(interfaces.take(i)) == discovery::reachable(
                    interfaces,
                ).take(k)
            },
    decreases interfaces.len(),
{
    let all = discovery::reachable(interfaces);
    if interfaces.len() > 0 {
        let rest = interfaces.drop_last();
        let before = discovery::reachable(rest);
        if k < before.len() {
            only_interfaces_are_asked(rest, k);
            let i = choose|i: int|
                {
                    &&& 0 <= i < rest.len()
                    &&& !(#[trigger] rest[i]).loopback
                    &&& rest[i].broadcast == Some(before[k])
                    &&& discovery::reachable(rest.take(i)) == before.take(k)
                };
            assert(interfaces[i] == rest[i]);
            assert(interfaces.take(i) =~= rest.take(i));
            assert(all.take(k) =~= before.take(k));
        } else {
            let i = interfaces.len() - 1;
            assert(interfaces[i] == interfaces.last());
            assert(interfaces.take(i) =~= rest);
            assert(all.take(k) =~= before);
        }
    }
}

/// An answer is taken in exactly if it speaks our version and comes from a host that
/// has not answered yet.
pub proof fn hosts_are_noted_once(found: Seq<Found>, heard: Beacon)
    ensures
        discovery::is_fresh_answer(found, heard) <==> match heard {
            Beacon::Announce { protocol: version, id, .. } => version == 1 && forall|i: int|
                0 <= i < found.len() ==> (#[trigger] found[i]).id@ != protocol::hex_of(id@),
            _ => false,
        },
{
    if let Beacon::Announce { id, .. } = heard {
        let hex = protocol::hex_of(id@);
        let list = discovery::ids(found);
        if list.contains(hex) {
            let i = choose|i: int| 0 <= i < list.len() && list[i] == hex;
            assert(found[i].id@ == hex);
        }
        if exists|i: int| 0 <= i < found.len() && (#[trigger] found[i]).id@ == hex {
            let i = choose|i: int| 0 <= i < found.len() && (#[trigger] found[i]).id@ == hex;
            assert(list[i] == hex);
        }
    }
}

/// A host is listed as it described itself, at the address that the answer came from.
pub proof fn hosts_are_listed_as_they_answer(f: Found, heard: Beacon, address: Seq<char>)
    requires
        discovery::describes(f, heard, address),
    ensures
        heard matches Beacon::Announce { id, name, os, port, needs_code, .. } && {
            &&& f.id@ == protocol::hex_of(id@)
            &&& f.name@ == name@
            &&& f.os@ == os@
            &&& f.port == port
            &&& f.needs_code == needs_code
            &&& f.address@ == address
        },
{
}

/// Hosts are listed by name.
pub proof fn hosts_are_listed_by_name(a: Found, b: Found)
    ensures
        a.before(&b) <==> text::precedes(a.name@, b.name@),
{
}

} // verus!
