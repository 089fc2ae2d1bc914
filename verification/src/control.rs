//! What the UI can ask for, and what it is shown.
//!
//! Only one role runs at a time, and swapping roles tears the old one down:
//! being a host and a client at once is a way to build an input loop, not a
//! feature.
//!
//! The UI is not told about every input event. State changes set a dirty flag
//! and a timer emits at most one event per tick, so a thousand mouse moves a
//! second cannot turn into a thousand renders.

use vstd::prelude::*;

use crate::capture;
use crate::client::{ClientState, Status, Target};
use crate::crypto;
use crate::crypto::RandomError;
use crate::host;
use crate::host::{Action, HostState, Peer};
use crate::layout;
use crate::layout::{Device, LayoutView};
use crate::order;
use crate::order::Ranked;
use crate::permission::Access;
use crate::platform::Os;
use crate::protocol;
use crate::protocol::{Display, DEFAULT_PORT};
use crate::settings::Settings;
use crate::table::Table;
use crate::text;

pub mod laws;

verus! {

/// How near an edge has to be to be snapped to, in wall pixels: generous,
/// because the UI works in a scaled-down preview.
pub const SNAP_THRESHOLD: i32 = 120;

/// Which role is running, with the state that goes with it. While idle the
/// stored settings are the single source of truth.
pub enum Role<'a> {
    Idle(&'a Settings),
    Host(&'a HostState),
    Client(&'a ClientState),
}

impl<'a> Role<'a> {
    pub open spec fn name(&self) -> Seq<char> {
        match self {
            Role::Idle(_) => "idle"@,
            Role::Host(_) => "host"@,
            Role::Client(_) => "client"@,
        }
    }

    pub fn label(&self) -> (r: &'static str)
        ensures
            r@ == self.name(),
    {
        match self {
            Role::Idle(_) => "idle",
            Role::Host(_) => "host",
            Role::Client(_) => "client",
        }
    }

    /// The settings that are live.
    pub open spec fn live_settings(&self) -> Settings {
        match self {
            Role::Idle(settings) => **settings,
            Role::Host(state) => state.settings,
            Role::Client(state) => state.settings,
        }
    }
}

/// Everything the UI needs for one render. Made as one object so the frontend
/// never has to stitch several commands together and risk showing a half-state.
#[derive(Debug)]
pub struct Snapshot {
    pub role: &'static str,
    pub device_name: String,
    pub device_id: String,
    pub pairing_code: String,
    /// Set while the host will accept a device it has not seen before.
    pub accepting: bool,
    pub clipboard_sync: bool,
    pub clipboard_images: bool,
    pub port: u16,
    /// False where input capture has no backend yet, which today means anything
    /// that is not Windows. Such a machine is a perfectly good client; it just
    /// cannot be the one holding the keyboard, so the UI says so up front
    /// instead of failing when the button is pressed.
    pub can_host: bool,
    /// Whether the OS will let this machine replay input at all. macOS gates it
    /// behind Accessibility and refuses in silence, so the UI has to ask rather
    /// than wait for an error that never comes.
    pub input_access: Access,
    /// This machine's own monitors, for the layout preview while idle.
    pub displays: Vec<Display>,
    /// Host role only.
    pub layout: Option<LayoutView>,
    pub peers: Vec<PeerView>,
    /// Client role only. Carries its own message, because a client spends its
    /// life reconnecting and the reason matters.
    pub connection: Option<Status>,
}

#[derive(Debug)]
pub struct PeerView {
    pub id: String,
    pub name: String,
    pub os: String,
    pub latency_ms: Option<u32>,
    pub displays: Vec<Display>,
}

/// By name.
impl Ranked for PeerView {
    open spec fn before(&self, other: &Self) -> bool {
        text::precedes(self.name@, other.name@)
    }

    fn is_before(&self, other: &Self) -> bool {
        text::is_before(self.name.as_str(), other.name.as_str())
    }

    proof fn asymmetric(a: &Self, b: &Self) {
        if b.before(a) {
            text::precedes_transitive(a.name@, b.name@, a.name@);
            text::precedes_irreflexive(a.name@);
        }
    }

    proof fn transitive(a: &Self, b: &Self, c: &Self) {
        text::not_precedes_transitive(a.name@, b.name@, c.name@);
    }
}

/// A peer as the UI shows it.
pub open spec fn shows_peer(v: PeerView, id: Seq<char>, peer: Peer) -> bool {
    &&& v.id@ == id
    &&& v.name@ == peer.info.name@
    &&& v.os@ == peer.info.os@
    &&& v.latency_ms == peer.latency_ms
    &&& v.displays@ == peer.info.displays@
}

/// A list that shows every connected peer once and nobody else.
pub open spec fn shows_peers(list: Seq<PeerView>, peers: Table<Peer>) -> bool {
    &&& list.len() == peers.entries@.len()
    &&& forall|i: int|
        0 <= i < list.len() ==> shows_peer(
            #[trigger] list[i],
            peers.entries@[i].0@,
            peers.entries@[i].1,
        )
}

/// The peers in the order the UI lists them: by name, so a peer does not jump
/// around the list between ticks.
pub fn peer_views(peers: &Table<Peer>) -> (r: Vec<PeerView>)
    ensures
        exists|list: Seq<PeerView>| #[trigger]
            shows_peers(list, *peers) && r@ == order::in_order(list),
        order::is_ordered(r@),
        r@.len() == peers.entries@.len(),
{
    let mut list: Vec<PeerView> = Vec::new();
    let mut i: usize = 0;
    while i < peers.entries.len()
        invariant
            i <= peers.entries@.len(),
            list@.len() == i,
            forall|k: int|
                0 <= k < i ==> shows_peer(
                    #[trigger] list@[k],
                    peers.entries@[k].0@,
                    peers.entries@[k].1,
                ),
        decreases peers.entries@.len() - i,
    {
        let peer = &peers.entries[i].1;
        list.push(
            PeerView {
                id: peers.entries[i].0.clone(),
                name: peer.info.name.clone(),
                os: peer.info.os.clone(),
                latency_ms: peer.latency_ms,
                displays: protocol::copy_displays(&peer.info.displays),
            },
        );
        i += 1;
    }
    proof {
        assert(shows_peers(list@, *peers));
        order::sorting_sorts(list@);
    }
    order::sort(list)
}

/// The same status, field by field.
pub open spec fn same_status(a: Status, b: Status) -> bool {
    &&& a.connected == b.connected
    &&& a.host_id@ == b.host_id@
    &&& a.host_name@ == b.host_name@
    &&& a.host_os@ == b.host_os@
    &&& a.address@ == b.address@
    &&& a.controlled == b.controlled
    &&& a.message@ == b.message@
    &&& a.attempts == b.attempts
}

fn copy_status(status: &Status) -> (r: Status)
    ensures
        same_status(r, *status),
{
    Status {
        connected: status.connected,
        host_id: status.host_id.clone(),
        host_name: status.host_name.clone(),
        host_os: status.host_os.clone(),
        address: status.address.clone(),
        controlled: status.controlled,
        message: status.message.clone(),
        attempts: status.attempts,
    }
}

/// The wall can be drawn, where there is one.
pub open spec fn can_show(role: Role) -> bool {
    role matches Role::Host(state) ==> {
        &&& state.wf()
        &&& forall|i: int|
            0 <= i < state.wall.devices@.len() ==> (
            #[trigger] state.wall.devices@[i]).wall_area().fits()
    }
}

/// Everything the UI needs for one render. Settings are read through the
/// running role, which is what keeps the UI honest about, say, a pairing code
/// that was just regenerated.
pub fn snapshot(role: Role, os: Os, input_access: Access, displays: Vec<Display>) -> (r: Snapshot)
    requires
        can_show(role),
    ensures
        r.role@ == role.name(),
        r.device_name@ == role.live_settings().device_name@,
        r.device_id@ == role.live_settings().device_id@,
        r.pairing_code@ == role.live_settings().pairing_code@,
        r.clipboard_sync == role.live_settings().clipboard_sync,
        r.clipboard_images == role.live_settings().clipboard_images,
        r.port == DEFAULT_PORT,
        r.can_host == (os == Os::Windows),
        r.input_access == input_access,
        r.displays == displays,
        match role {
            Role::Host(state) => {
                &&& r.accepting == state.accepting
                &&& r.layout is Some
                &&& r.layout->0.owner@ == state.owner_hex()
                &&& r.layout->0.devices@.len() == state.wall.devices@.len()
                &&& forall|i: int|
                    0 <= i < state.wall.devices@.len() ==> layout::shows(
                        #[trigger] r.layout->0.devices@[i],
                        state.wall.devices@[i],
                        i == 0,
                    )
                &&& exists|list: Seq<PeerView>| #[trigger]
                    shows_peers(list, state.peers) && r.peers@ == order::in_order(list)
                &&& r.connection is None
            },
            Role::Client(state) => {
                &&& !r.accepting
                &&& r.layout is None
                &&& r.peers@.len() == 0
                &&& r.connection is Some
                &&& same_status(r.connection->0, state.status)
            },
            Role::Idle(_) => {
                &&& !r.accepting
                &&& r.layout is None
                &&& r.peers@.len() == 0
                &&& r.connection is None
            },
        },
{
    let settings = match role {
        Role::Host(state) => &state.settings,
        Role::Client(state) => &state.settings,
        Role::Idle(settings) => settings,
    };
    let (layout, peers, connection, accepting) = match role {
        Role::Host(state) => (
            Some(state.layout_view()),
            peer_views(&state.peers),
            None,
            state.accepting,
        ),
        Role::Client(state) => (None, Vec::new(), Some(copy_status(&state.status)), false),
        Role::Idle(_) => (None, Vec::new(), None, false),
    };
    Snapshot {
        role: role.label(),
        device_name: settings.device_name.clone(),
        device_id: settings.device_id.clone(),
        pairing_code: settings.pairing_code.clone(),
        accepting,
        clipboard_sync: settings.clipboard_sync,
        clipboard_images: settings.clipboard_images,
        port: DEFAULT_PORT,
        can_host: capture::supported(os),
        input_access,
        displays,
        layout,
        peers,
        connection,
    }
}

/// Where to connect, from what the user entered. The port has a default; the
/// address does not.
pub fn target_for(
    address: &str,
    port: Option<u16>,
    host_id: Option<String>,
    code: Option<String>,
) -> (r: Result<Target, String>)
    ensures
        match r {
            Ok(target) => {
                &&& text::trimmed(address@).len() > 0
                &&& target.address@ == text::trimmed(address@)
                &&& target.port == match port {
                    Some(p) => p,
                    None => DEFAULT_PORT,
                }
                &&& target.host_id == host_id
                &&& target.code == code
            },
            Err(why) => {
                &&& text::trimmed(address@).len() == 0
                &&& why@ == "enter the host's address, or pick it from the list"@
            },
        },
{
    let address = text::trim(address);
    if !text::has_text(address.as_str()) {
        return Err("enter the host's address, or pick it from the list".to_owned());
    }
    let port = match port {
        Some(p) => p,
        None => DEFAULT_PORT,
    };
    Ok(Target { address, port, host_id, code })
}

/// What the user is told who edits the layout without hosting.
pub fn not_hosting() -> (r: String)
    ensures
        r@ == "the layout only applies while hosting"@,
{
    "the layout only applies while hosting".to_owned()
}

/// Moves a device on the wall. Called at pointer rate during a drag, so it does
/// the least it possibly can. The host is the origin of the wall; moving it
/// would move everything else relative to it, which is not what the drag means.
pub fn move_device(state: &mut HostState, device_id: &str, x: i32, y: i32) -> (r: Result<
    (),
    String,
>)
    requires
        old(state).wf(),
    ensures
        final(state).wf(),
        ({
            let before = old(state).wall.devices@;
            match layout::hex_from(before, 0, device_id@) {
                Some(i) => if i == 0 {
                    &&& r is Err
                    &&& r->Err_0@ == "the host stays where it is; drag the other devices"@
                    &&& *final(state) == *old(state)
                } else {
                    &&& r is Ok
                    &&& final(state).wall.devices@ == before.update(
                        i,
                        (Device { offset: (x, y), ..before[i] }),
                    )
                    &&& final(state).wall.owner == old(state).wall.owner
                    &&& final(state).wall.cursor == old(state).wall.cursor
                    &&& final(state).wall.locked == old(state).wall.locked
                    &&& final(state).peers == old(state).peers
                    &&& final(state).same_but_devices_and_peers(*old(state))
                },
                None => {
                    &&& r is Err
                    &&& r->Err_0@ == "no such device"@
                    &&& *final(state) == *old(state)
                },
            }
        }),
{
    let idx = match state.wall.index_of_hex(device_id) {
        Some(idx) => idx,
        None => {
            return Err("no such device".to_owned());
        },
    };
    if idx == 0 {
        return Err("the host stays where it is; drag the other devices".to_owned());
    }
    state.wall.set_offset(idx, x, y);
    Ok(())
}

/// Saved positions once the first `n` devices, except the host, have been
/// recorded.
pub open spec fn with_offsets(
    saved: Map<Seq<char>, (i32, i32)>,
    devices: Seq<Device>,
    n: int,
) -> Map<Seq<char>, (i32, i32)>
    decreases n,
{
    if n <= 1 {
        saved
    } else {
        with_offsets(saved, devices, n - 1).insert(
            protocol::hex_of(devices[n - 1].id@),
            devices[n - 1].offset,
        )
    }
}

/// Writes every device's offset into settings, so the wall survives a restart.
pub fn persist_layout(state: &mut HostState) -> (r: Vec<Action>)
    requires
        old(state).wf(),
    ensures
        final(state).wf(),
        *final(state) == (HostState {
            settings: Settings { layout: final(state).settings.layout, ..old(state).settings },
            ..*old(state)
        }),
        final(state).settings.layout@ == with_offsets(
            old(state).settings.layout@,
            old(state).wall.devices@,
            old(state).wall.devices@.len() as int,
        ),
        host::acts(r@) == seq![host::Act::SaveSettings, host::Act::MarkDirty],
{
    let ghost start = *state;
    let mut i: usize = 1;
    while i < state.wall.devices.len()
        invariant
            1 <= i <= state.wall.devices@.len(),
            start.wf(),
            start == *old(state),
            state.settings.wf(),
            *state == (HostState {
                settings: Settings { layout: state.settings.layout, ..start.settings },
                ..start
            }),
            state.settings.layout@ == with_offsets(
                start.settings.layout@,
                start.wall.devices@,
                i as int,
            ),
        decreases state.wall.devices@.len() - i,
    {
        let hex = protocol::id_to_hex(&state.wall.devices[i].id);
        let offset = state.wall.devices[i].offset;
        state.settings.layout.insert(hex, offset);
        i += 1;
    }
    save_and_refresh()
}

fn save_and_refresh() -> (r: Vec<Action>)
    ensures
        host::acts(r@) == seq![host::Act::SaveSettings, host::Act::MarkDirty],
{
    let mut out: Vec<Action> = Vec::new();
    out.push(Action::SaveSettings);
    out.push(Action::MarkDirty);
    assert(host::acts(out@) =~= seq![host::Act::SaveSettings, host::Act::MarkDirty]);
    out
}

/// Positions are remembered: once the layout has been written down, every remote
/// device's saved position is the one it has on the wall.
pub proof fn saved_positions_are_current(
    saved: Map<Seq<char>, (i32, i32)>,
    devices: Seq<Device>,
    n: int,
    i: int,
)
    requires
        1 <= i < n <= devices.len(),
        forall|a: int, b: int|
            0 <= a < b < devices.len() ==> (#[trigger] devices[a]).id@ != (
            #[trigger] devices[b]).id@,
    ensures
        with_offsets(saved, devices, n).contains_key(protocol::hex_of(devices[i].id@)),
        with_offsets(saved, devices, n)[protocol::hex_of(devices[i].id@)] == devices[i].offset,
    decreases n,
{
    if i < n - 1 {
        saved_positions_are_current(saved, devices, n - 1, i);
        if protocol::hex_of(devices[i].id@) == protocol::hex_of(devices[n - 1].id@) {
            protocol::hex_injective(devices[i].id, devices[n - 1].id);
        }
    }
}

/// A device that reconnects, within a session or after a restart, is where the
/// user left it: one on the wall stays put, and one that is not yet goes where
/// the layout that was written down has it.
pub proof fn devices_come_back_where_they_were(
    state: HostState,
    saved: Map<Seq<char>, (i32, i32)>,
    devices: Seq<Device>,
    i: int,
    info: protocol::DeviceInfo,
)
    requires
        1 <= i < devices.len(),
        forall|a: int, b: int|
            0 <= a < b < devices.len() ==> (#[trigger] devices[a]).id@ != (
            #[trigger] devices[b]).id@,
        state.settings.layout@ == with_offsets(saved, devices, devices.len() as int),
        info.id@ == devices[i].id@,
        layout::index_from(state.wall.devices@, 0, info.id@) is None || state.wall.devices@
            == devices,
    ensures
        state.joining_offset(info) == devices[i].offset,
{
    saved_positions_are_current(saved, devices, devices.len() as int, i);
    layout::index_from_is_first(state.wall.devices@, 0, info.id@);
    if state.wall.devices@ == devices && layout::index_from(devices, 0, info.id@) is Some {
        let k = layout::index_from(devices, 0, info.id@)->0;
        if k < i {
            assert(devices[k].id@ != devices[i].id@);
        } else if k > i {
            assert(devices[i].id@ != devices[k].id@);
        }
    }
}

/// Nudges every device onto its nearest neighbour's edge, and writes the result
/// down.
pub fn snap_layout(state: &mut HostState) -> (r: Vec<Action>)
    requires
        old(state).wf(),
        forall|i: int|
            1 <= i < old(state).wall.devices@.len() ==> layout::fits(
                (#[trigger] layout::snapped_offset(
                    old(state).wall.devices@,
                    i,
                    SNAP_THRESHOLD as int,
                )).0,
            ) && layout::fits(
                layout::snapped_offset(old(state).wall.devices@, i, SNAP_THRESHOLD as int).1,
            ),
    ensures
        final(state).wf(),
        is_rearranged(
            *final(state),
            *old(state),
            |i: int| layout::snapped_offset(old(state).wall.devices@, i, SNAP_THRESHOLD as int),
        ),
        host::acts(r@) == seq![host::Act::SaveSettings, host::Act::MarkDirty],
{
    state.wall.snap_edges(SNAP_THRESHOLD);
    persist_layout(state)
}

/// Back to the default left-to-right row, written down.
pub fn auto_arrange(state: &mut HostState) -> (r: Vec<Action>)
    requires
        old(state).wf(),
        forall|i: int|
            1 <= i < old(state).wall.devices@.len() ==> layout::fits(
                (#[trigger] layout::row_offset(old(state).wall.devices@, i)).0,
            ) && layout::fits(layout::row_offset(old(state).wall.devices@, i).1),
    ensures
        final(state).wf(),
        is_rearranged(
            *final(state),
            *old(state),
            |i: int| layout::row_offset(old(state).wall.devices@, i),
        ),
        host::acts(r@) == seq![host::Act::SaveSettings, host::Act::MarkDirty],
{
    state.wall.auto_arrange();
    persist_layout(state)
}

/// The devices other than the host have been given new offsets, which have been
/// written down; nothing else changed.
pub open spec fn is_rearranged(
    after: HostState,
    before: HostState,
    offset: spec_fn(int) -> (int, int),
) -> bool {
    let was = before.wall.devices@;
    let now = after.wall.devices@;
    &&& after.wall.owner == before.wall.owner
    &&& after.wall.cursor == before.wall.cursor
    &&& after.wall.locked == before.wall.locked
    &&& after.peers == before.peers
    &&& after.accepting == before.accepting
    &&& after.clipboard == before.clipboard
    &&& after.held == before.held
    &&& after.next_session == before.next_session
    &&& after.stopping == before.stopping
    &&& after.settings == (Settings { layout: after.settings.layout, ..before.settings })
    &&& after.settings.layout@ == with_offsets(before.settings.layout@, now, now.len() as int)
    &&& now.len() == was.len()
    &&& now[0] == was[0]
    &&& forall|i: int|
        1 <= i < was.len() ==> {
            &&& (#[trigger] now[i]).same_but_offset(was[i])
            &&& now[i].offset.0 == offset(i).0
            &&& now[i].offset.1 == offset(i).1
        }
}

/// Removes everything that is remembered about a device.
pub fn forget(settings: &mut Settings, device_id: &str)
    requires
        old(settings).wf(),
    ensures
        final(settings).wf(),
        final(settings).paired_clients@ == old(settings).paired_clients@.remove(device_id@),
        final(settings).paired_hosts@ == old(settings).paired_hosts@.remove(device_id@),
        final(settings).layout@ == old(settings).layout@.remove(device_id@),
        *final(settings) == (Settings {
            paired_clients: final(settings).paired_clients,
            paired_hosts: final(settings).paired_hosts,
            layout: final(settings).layout,
            ..*old(settings)
        }),
{
    settings.paired_clients.remove(device_id);
    settings.paired_hosts.remove(device_id);
    settings.layout.remove(device_id);
}

/// The devices without one of them, unless it is the host.
pub open spec fn without_device(devices: Seq<Device>, device_id: Seq<char>) -> Seq<Device> {
    match layout::hex_from(devices, 0, device_id) {
        Some(i) => if i == 0 {
            devices
        } else {
            devices.remove(i)
        },
        None => devices,
    }
}

/// Forgets a device: drops its key, its saved position, and its connection. The
/// pointer is taken back first if this is where it is, then the peer is told why
/// it is being cut off.
pub fn forget_device(state: &mut HostState, device_id: &str) -> (r: Vec<Action>)
    requires
        old(state).wf(),
        old(state).has_pointer(device_id@) ==> old(state).wall.can_reclaim(),
    ensures
        final(state).wf(),
        final(state).wall.devices@ == without_device(old(state).wall.devices@, device_id@),
        !final(state).has_pointer(device_id@),
        host::suppressed_after(old(state).wall.owner != 0, host::acts(r@)) == (final(
            state).wall.owner != 0),
        final(state).peers == old(state).peers,
        final(state).settings.paired_clients@ == old(state).settings.paired_clients@.remove(
            device_id@,
        ),
        final(state).settings.paired_hosts@ == old(state).settings.paired_hosts@.remove(device_id@),
        final(state).settings.layout@ == old(state).settings.layout@.remove(device_id@),
        final(state).settings == (Settings {
            paired_clients: final(state).settings.paired_clients,
            paired_hosts: final(state).settings.paired_hosts,
            layout: final(state).settings.layout,
            ..old(state).settings
        }),
        final(state).accepting == old(state).accepting,
        final(state).clipboard == old(state).clipboard,
        final(state).held == old(state).held,
        final(state).next_session == old(state).next_session,
        final(state).stopping == old(state).stopping,
        ({
            let home = if old(state).has_pointer(device_id@) {
                old(state).reclaimed().wall
            } else {
                old(state).wall
            };
            let gone = layout::hex_from(old(state).wall.devices@, 0, device_id@);
            &&& final(state).wall.cursor == home.cursor
            &&& final(state).wall.locked == home.locked
            &&& final(state).wall.owner == if gone is Some && 0 < gone->0 < home.owner {
                home.owner - 1
            } else {
                home.owner as int
            }
        }),
        ({
            let back = if old(state).has_pointer(device_id@) {
                old(state).reclaim_acts()
            } else {
                seq![]
            };
            let list = host::acts(r@);
            let n = back.len() as int;
            if old(state).peers@.contains_key(device_id@) {
                &&& list.len() == n + 3
                &&& list.subrange(0, n) == back
                &&& host::is_goodbye(
                    list[n],
                    device_id@,
                    "unpaired by the host"@,
                )
                &&& list[n + 1] == host::Act::SaveSettings
                &&& list[n + 2] == host::Act::MarkDirty
            } else {
                list == back + seq![host::Act::SaveSettings, host::Act::MarkDirty]
            }
        }),
{
    let ghost start = *state;
    let owns = !state.wall.is_local() && *protocol::id_to_hex(
        &state.wall.devices[state.wall.owner].id,
    ).as_str() == *device_id;
    let mut out: Vec<Action> = Vec::new();
    assert(host::acts(out@) =~= seq![]);
    if owns {
        out = state.take_pointer_back();
    }
    let ghost back = host::acts(out@);
    let goodbye = state.disconnect_peer(device_id, "unpaired by the host");
    let ghost said = host::acts(goodbye@);
    host::append(&mut out, goodbye);
    let ghost before = state.wall.devices@;
    proof {
        layout::hex_from_is_first(before, 0, device_id@);
    }
    if let Some(idx) = state.wall.index_of_hex(device_id) {
        state.wall.remove(idx);
    }
    assert(!state.has_pointer(device_id@)) by {
        if state.has_pointer(device_id@) {
            let k = layout::hex_from(before, 0, device_id@)->0;
            let o = state.wall.owner as int;
            let a = if o < k {
                o
            } else {
                o + 1
            };
            if k == 0 {
                protocol::hex_injective(before[0].id, before[o].id);
            } else {
                protocol::hex_injective(before[k].id, before[a].id);
            }
        }
    }
    forget(&mut state.settings, device_id);
    let ghost middle = host::acts(out@);
    let last = save_and_refresh();
    host::append(&mut out, last);
    proof {
        let list = host::acts(out@);
        assert(middle == back + said);
        assert(list =~= back + said + seq![host::Act::SaveSettings, host::Act::MarkDirty]);
        if start.peers@.contains_key(device_id@) {
            assert(said.len() == 1);
            assert(list.subrange(0, back.len() as int) =~= back);
        } else {
            assert(said =~= seq![]);
            assert(list =~= back + seq![host::Act::SaveSettings, host::Act::MarkDirty]);
        }
        // The list ends in actions that leave suppression alone.
        reveal_with_fuel(host::suppressed_after, 4);
        let two = list.drop_last().drop_last();
        assert(two =~= back + said);
        assert(list.drop_last().last() == host::Act::SaveSettings);
        if said.len() == 1 {
            assert(two.drop_last() =~= back);
            assert(two.last() == said[0]);
        } else {
            assert(two =~= back);
        }
        host::suppression_ends_with_recall(start);
    }
    out
}

/// Renames this device, unless the name is blank. Peers see the new name the
/// next time they connect; renaming mid-session is not worth a protocol message.
pub fn set_device_name(settings: &mut Settings, name: &str) -> (r: bool)
    ensures
        r == (text::trimmed(name@).len() > 0),
        r ==> final(settings).device_name@ == text::trimmed(name@) && *final(settings) == (
        Settings { device_name: final(settings).device_name, ..*old(settings) }),
        !r ==> *final(settings) == *old(settings),
{
    let name = text::trim(name);
    if !text::has_text(name.as_str()) {
        return false;
    }
    settings.device_name = name;
    true
}

/// Puts a new pairing code in place of the old one, which stays if there is no
/// new one.
pub fn replace_code(settings: &mut Settings, code: Result<String, RandomError>) -> (r: Result<
    (),
    RandomError,
>)
    ensures
        match code {
            Ok(new) => {
                &&& r is Ok
                &&& *final(settings) == (Settings { pairing_code: new, ..*old(settings) })
            },
            Err(e) => {
                &&& r == Err::<(), RandomError>(e)
                &&& *final(settings) == *old(settings)
            },
        },
{
    match code {
        Ok(new) => {
            settings.pairing_code = new;
            Ok(())
        },
        Err(e) => Err(e),
    }
}

/// Rolls a new pairing code. Devices that have already paired hold a key of
/// their own, so this only affects who can pair from now on.
pub fn regenerate_code(settings: &mut Settings) -> (r: Result<(), RandomError>)
    ensures
        *final(settings) == (Settings {
            pairing_code: final(settings).pairing_code,
            ..*old(settings)
        }),
        r is Ok ==> crypto::is_pairing_code(final(settings).pairing_code@),
        r is Err ==> *final(settings) == *old(settings),
{
    replace_code(settings, crypto::random_pairing_code())
}

/// Opens or closes the pairing window. Closed means an unknown device is turned
/// away even with the right code, which is the point: the code is only useful
/// while the user is actually adding a device.
pub fn set_accepting(state: &mut HostState, accepting: bool)
    ensures
        *final(state) == (HostState { accepting, ..*old(state) }),
{
    state.accepting = accepting;
}

/// With the pairing window closed, a code opens nothing; devices that have
/// already paired are not affected, nor is anybody's key by a new code.
pub proof fn closed_window_keeps_strangers_out(
    state: HostState,
    device_hex: Seq<char>,
    pairing_code: String,
)
    ensures
        ({
            let closed = HostState { accepting: false, ..state };
            &&& closed.secret_for(device_hex, crate::transport::AuthMode::Code) is None
            &&& closed.secret_for(device_hex, crate::transport::AuthMode::Stored)
                == state.secret_for(device_hex, crate::transport::AuthMode::Stored)
        }),
        ({
            let rolled = HostState {
                settings: Settings { pairing_code, ..state.settings },
                ..state
            };
            rolled.secret_for(device_hex, crate::transport::AuthMode::Stored) == state.secret_for(
                device_hex,
                crate::transport::AuthMode::Stored,
            )
        }),
{
}

/// The code is typed once. After a first pairing the host holds the key it
/// issued under the device's id, and the client holds it under the host's; from
/// then on the client offers that key first, and the host asks for the same one,
/// whatever the code has become and whether or not new devices are welcome.
pub proof fn the_code_is_typed_once(
    state: HostState,
    client: Settings,
    target: Target,
    device: Seq<u8>,
    key: crypto::Secret,
)
    requires
        state.settings.paired_clients@.contains_key(protocol::hex_of(device)),
        state.settings.paired_clients@[protocol::hex_of(device)] == key,
        target.host_id is Some,
        client.paired_hosts@.contains_key(target.host_id->0@),
        client.paired_hosts@[target.host_id->0@] == key,
    ensures
        crate::client::credentials_for(client, target).len() >= 1,
        crate::client::credentials_for(client, target)[0] == (
            crate::transport::AuthMode::Stored,
            key@,
        ),
        state.secret_for(protocol::hex_of(device), crate::transport::AuthMode::Stored) == Some(
            key@,
        ),
{
}

/// Clipboard toggles. Both take effect on the next start of a role.
pub fn set_clipboard(settings: &mut Settings, sync: Option<bool>, images: Option<bool>)
    ensures
        *final(settings) == (Settings {
            clipboard_sync: match sync {
                Some(on) => on,
                None => old(settings).clipboard_sync,
            },
            clipboard_images: match images {
                Some(on) => on,
                None => old(settings).clipboard_images,
            },
            ..*old(settings)
        }),
{
    if let Some(on) = sync {
        settings.clipboard_sync = on;
    }
    if let Some(on) = images {
        settings.clipboard_images = on;
    }
}

/// One tick of the UI's clock, given what the OS said about input access at the
/// last tick, what it says now, and whether anything else changed. Gives what to
/// compare against at the next tick and whether the UI is stale.
///
/// Nothing marks the state dirty when the *user* grants Accessibility in System
/// Settings, so that is polled here, which is what lets the warning clear by
/// itself. Off macOS it can never change.
pub fn ui_tick(access: Access, now: Access, dirty: bool) -> (r: (Access, bool))
    ensures
        r == if access == Access::NotNeeded {
            (access, dirty)
        } else {
            (now, dirty || now != access)
        },
{
    if access == Access::NotNeeded {
        (access, dirty)
    } else {
        (now, dirty || now != access)
    }
}

} // verus!
