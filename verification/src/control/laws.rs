//! What the commands promise.

use vstd::prelude::*;

use crate::client::Status;
use crate::control;
use crate::control::{PeerView, Role};
use crate::host::{HostState, Peer};
use crate::layout;
use crate::layout::Device;
use crate::order::Ranked;
use crate::protocol;
use crate::settings::Settings;
use crate::table::Table;
use crate::text;

verus! {

/// Every peer on the list is shown, in its own words, and nobody else.
pub proof fn every_peer_is_shown(list: Seq<PeerView>, peers: Table<Peer>, i: int)
    requires
        control::shows_peers(list, peers),
        0 <= i < list.len(),
    ensures
        list.len() == peers.entries@.len(),
        list[i].id@ == peers.entries@[i].0@,
        list[i].name@ == peers.entries@[i].1.info.name@,
        list[i].os@ == peers.entries@[i].1.info.os@,
        list[i].latency_ms == peers.entries@[i].1.latency_ms,
        list[i].displays@ == peers.entries@[i].1.info.displays@,
{
}

/// Peers are listed by name.
pub proof fn peers_are_listed_by_name(a: PeerView, b: PeerView)
    ensures
        a.before(&b) <==> text::precedes(a.name@, b.name@),
{
}

/// The status is shown as it is, in every field.
pub proof fn the_status_is_shown_whole(a: Status, b: Status)
    requires
        control::same_status(a, b),
    ensures
        a.connected == b.connected,
        a.controlled == b.controlled,
        a.attempts == b.attempts,
        a.host_id@ == b.host_id@,
        a.host_name@ == b.host_name@,
        a.host_os@ == b.host_os@,
        a.address@ == b.address@,
        a.message@ == b.message@,
{
}

/// Settings are read through the role that is running.
pub proof fn settings_are_those_of_the_role(
    idle: &Settings,
    host: &HostState,
    client: &crate::client::ClientState,
)
    ensures
        Role::Idle(idle).live_settings() == *idle,
        Role::Host(host).live_settings() == host.settings,
        Role::Client(client).live_settings() == client.settings,
        Role::Idle(idle).name() == "idle"@,
        Role::Host(host).name() == "host"@,
        Role::Client(client).name() == "client"@,
{
}

/// Writing the layout down records every device but the host, and leaves alone what
/// was recorded of devices that are not there.
pub proof fn positions_are_written_down(
    saved: Map<Seq<char>, (i32, i32)>,
    devices: Seq<Device>,
    who: Seq<char>,
)
    requires
        forall|a: int, b: int|
            0 <= a < b < devices.len() ==> (#[trigger] devices[a]).id@ != (
            #[trigger] devices[b]).id@,
    ensures
        ({
            let now = control::with_offsets(saved, devices, devices.len() as int);
            let there = exists|i: int|
                1 <= i < devices.len() && protocol::hex_of((#[trigger] devices[i]).id@) == who;
            &&& forall|i: int|
                1 <= i < devices.len() && protocol::hex_of((#[trigger] devices[i]).id@) == who
                    ==> now.contains_key(who) && now[who] == devices[i].offset
            &&& !there ==> (now.contains_key(who) <==> saved.contains_key(who))
            &&& !there && saved.contains_key(who) ==> now[who] == saved[who]
        }),
{
    let n = devices.len() as int;
    assert forall|i: int|
        1 <= i < devices.len() && protocol::hex_of((#[trigger] devices[i]).id@)
            == who implies control::with_offsets(saved, devices, n).contains_key(who)
        && control::with_offsets(saved, devices, n)[who] == devices[i].offset by {
        control::saved_positions_are_current(saved, devices, n, i);
    }
    if !(exists|i: int|
        1 <= i < devices.len() && protocol::hex_of((#[trigger] devices[i]).id@) == who) {
        others_stay(saved, devices, n, who);
    }
}

proof fn others_stay(
    saved: Map<Seq<char>, (i32, i32)>,
    devices: Seq<Device>,
    n: int,
    who: Seq<char>,
)
    requires
        n <= devices.len(),
        forall|i: int|
            1 <= i < devices.len() ==> protocol::hex_of((#[trigger] devices[i]).id@) != who,
    ensures
        ({
            let now = control::with_offsets(saved, devices, n);
            &&& now.contains_key(who) <==> saved.contains_key(who)
            &&& saved.contains_key(who) ==> now[who] == saved[who]
        }),
    decreases n,
{
    if n > 1 {
        others_stay(saved, devices, n - 1, who);
        assert(protocol::hex_of(devices[n - 1].id@) != who);
    }
}

/// Arranging the wall moves the devices other than the host, writes down where they
/// are, and changes nothing else.
pub proof fn arranging_only_moves_devices(
    after: HostState,
    before: HostState,
    offset: spec_fn(int) -> (int, int),
    i: int,
)
    requires
        control::is_rearranged(after, before, offset),
        0 <= i < before.wall.devices@.len(),
    ensures
        after.wall.owner == before.wall.owner,
        after.wall.cursor == before.wall.cursor,
        after.wall.locked == before.wall.locked,
        after.peers == before.peers,
        after.accepting == before.accepting,
        after.clipboard == before.clipboard,
        after.held == before.held,
        after.next_session == before.next_session,
        after.stopping == before.stopping,
        after.settings.device_id == before.settings.device_id,
        after.settings.device_name == before.settings.device_name,
        after.settings.pairing_code == before.settings.pairing_code,
        after.settings.clipboard_sync == before.settings.clipboard_sync,
        after.settings.clipboard_images == before.settings.clipboard_images,
        after.settings.paired_hosts == before.settings.paired_hosts,
        after.settings.paired_clients == before.settings.paired_clients,
        after.settings.layout@ == control::with_offsets(
            before.settings.layout@,
            after.wall.devices@,
            after.wall.devices@.len() as int,
        ),
        after.wall.devices@.len() == before.wall.devices@.len(),
        ({
            let now = after.wall.devices@[i];
            let was = before.wall.devices@[i];
            &&& i == 0 ==> now == was
            &&& i > 0 ==> now.offset.0 == offset(i).0 && now.offset.1 == offset(i).1
            &&& now.id == was.id
            &&& now.name == was.name
            &&& now.displays == was.displays
            &&& now.online == was.online
        }),
{
    let now = after.wall.devices@[i];
}

/// A device that is forgotten is off the wall; the others stay, in order. The host
/// cannot be forgotten.
pub proof fn only_the_forgotten_device_goes(devices: Seq<Device>, device_id: Seq<char>, i: int)
    requires
        0 <= i < devices.len(),
        protocol::hex_of(devices[i].id@) == device_id,
        forall|a: int, b: int|
            0 <= a < b < devices.len() ==> (#[trigger] devices[a]).id@ != (
            #[trigger] devices[b]).id@,
    ensures
        ({
            let after = control::without_device(devices, device_id);
            &&& i == 0 ==> after == devices
            &&& i > 0 ==> after == devices.subrange(0, i) + devices.subrange(
                i + 1,
                devices.len() as int,
            )
        }),
{
    layout::hex_from_is_first(devices, 0, device_id);
    let k = layout::hex_from(devices, 0, device_id)->0;
    if k != i {
        protocol::hex_injective(devices[i].id, devices[k].id);
    }
    if i > 0 {
        assert(devices.remove(i) =~= devices.subrange(0, i) + devices.subrange(
            i + 1,
            devices.len() as int,
        ));
    }
}

/// Forgetting a device that is not there forgets none.
pub proof fn forgetting_nobody_changes_nothing(devices: Seq<Device>, device_id: Seq<char>)
    requires
        forall|i: int|
            0 <= i < devices.len() ==> protocol::hex_of((#[trigger] devices[i]).id@) != device_id,
    ensures
        control::without_device(devices, device_id) == devices,
{
    layout::hex_from_is_first(devices, 0, device_id);
}

/// A wall can be drawn exactly if the place of every device on it has coordinates; a
/// role without a wall always can.
pub proof fn what_can_be_drawn(role: Role)
    ensures
        !(role is Host) ==> control::can_show(role),
        role matches Role::Host(state) ==> (state.wf() && (forall|i: int|
            0 <= i < state.wall.devices@.len() ==> {
                let d = #[trigger] state.wall.devices@[i];
                &&& i32::MIN <= d.local_bounds.x + d.offset.0 <= i32::MAX
                &&& i32::MIN <= d.local_bounds.y + d.offset.1 <= i32::MAX
            }) ==> control::can_show(role)),
{
}

} // verus!
