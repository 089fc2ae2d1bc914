//! What the host promises, said of the messages that go out and of the state
//! that is left.

use vstd::prelude::*;

use crate::capture::CaptureEvent;
use crate::crypto;
use crate::host;
use crate::host::{Act, Action, HostState, Peer};
use crate::layout;
use crate::layout::Device;
use crate::protocol;
use crate::protocol::{ClientMsg, DeviceInfo, HostMsg, InputEvent};
use crate::transport::{AuthMode, ClientIntent};

verus! {

/// The hexadecimal id of a device on the wall.
pub open spec fn id_at(state: HostState, i: int) -> Seq<char> {
    protocol::hex_of(state.wall.devices@[i].id@)
}

/// Everything but the wall is the same.
pub open spec fn same_but_wall(a: HostState, b: HostState) -> bool {
    &&& a.peers == b.peers
    &&& a.settings == b.settings
    &&& a.accepting == b.accepting
    &&& a.clipboard == b.clipboard
    &&& a.held == b.held
    &&& a.next_session == b.next_session
    &&& a.stopping == b.stopping
}

/// A message to a connected peer is queued for that peer as it is, once; one to
/// anybody else goes nowhere.
pub proof fn messages_reach_the_connected(
    peers: Map<Seq<char>, Peer>,
    to: Seq<char>,
    msg: HostMsg,
)
    ensures
        peers.contains_key(to) ==> host::sent(peers, to, msg) == seq![Act::Send { to, msg }],
        !peers.contains_key(to) ==> host::sent(peers, to, msg) == Seq::<Act>::empty(),
{
}

/// A captured click, turn of the wheel or key goes to the machine that has the
/// pointer, as it was captured and exactly once. While that is the host itself,
/// nothing is sent.
pub proof fn captured_input_follows_the_pointer(state: HostState, event: CaptureEvent)
    requires
        state.wf(),
    ensures
        ({
            let list = state.follow_acts(event);
            let to = id_at(state, state.wall.owner as int);
            let away = state.wall.owner != 0 && state.peers@.contains_key(to);
            match event {
                CaptureEvent::Button { button, down } => {
                    &&& away ==> list == seq![
                        Act::Send { to, msg: HostMsg::Input(InputEvent::Button { button, down }) },
                    ]
                    &&& !away ==> list == Seq::<Act>::empty()
                },
                CaptureEvent::Wheel { dx, dy } => {
                    &&& away ==> list == seq![
                        Act::Send { to, msg: HostMsg::Input(InputEvent::Wheel { dx, dy }) },
                    ]
                    &&& !away ==> list == Seq::<Act>::empty()
                },
                CaptureEvent::Key { vk, scan, ext, down } => {
                    &&& away ==> list == seq![
                        Act::Send {
                            to,
                            msg: HostMsg::Input(InputEvent::Key { vk, scan, ext, down }),
                        },
                    ]
                    &&& !away ==> list == Seq::<Act>::empty()
                },
                CaptureEvent::MotionAbs { .. } => list == Seq::<Act>::empty(),
                CaptureEvent::Motion { .. } => true,
                CaptureEvent::Escape => true,
            }
        }),
{
}

/// What each captured event leaves of the state. Keys and the wheel change
/// nothing. A button counts up or down, and pins the pointer while any is held.
/// Motion and the real cursor change the wall and nothing else. The hotkey brings
/// the pointer home and forgets the buttons.
pub proof fn captured_input_moves_the_state(state: HostState, event: CaptureEvent)
    requires
        state.wf(),
        state.can_follow(event),
    ensures
        ({
            let after = state.followed(event);
            match event {
                CaptureEvent::Button { down, .. } => {
                    &&& down && state.held < 255 ==> after.held == state.held + 1
                    &&& down && state.held == 255 ==> after.held == 255
                    &&& !down && state.held > 0 ==> after.held == state.held - 1
                    &&& !down && state.held == 0 ==> after.held == 0
                    &&& after.wall.locked == (after.held > 0)
                    &&& after.wall.owner == state.wall.owner
                    &&& after.wall.cursor == state.wall.cursor
                    &&& after.wall.devices == state.wall.devices
                    &&& same_but_wall(HostState { held: state.held, ..after }, state)
                },
                CaptureEvent::Wheel { .. } => after == state,
                CaptureEvent::Key { .. } => after == state,
                CaptureEvent::MotionAbs { x, y } => {
                    &&& same_but_wall(after, state)
                    &&& state.wall.owner != 0 ==> after.wall == state.wall
                    &&& state.wall.owner == 0 ==> {
                        &&& after.wall.owner == 0
                        &&& after.wall.locked == state.wall.locked
                        &&& after.wall.devices == state.wall.devices
                        &&& after.wall.cursor == (x, y)
                    }
                },
                CaptureEvent::Motion { dx, dy } => {
                    &&& same_but_wall(after, state)
                    &&& after.wall == state.wall.moved(dx as int, dy as int)
                },
                CaptureEvent::Escape => {
                    &&& after.held == 0
                    &&& same_but_wall(HostState { held: state.held, ..after }, state)
                    &&& after.wall.owner == 0
                    &&& !after.wall.locked
                    &&& after.wall.devices == state.wall.devices
                    &&& state.wall.owner == 0 ==> after.wall.cursor == state.wall.cursor
                    &&& state.wall.owner != 0 ==> layout::laws::is_nearest(
                        state.wall.devices@[0],
                        state.wall.cursor.0 as int,
                        state.wall.cursor.1 as int,
                        after.wall.cursor.0 as int,
                        after.wall.cursor.1 as int,
                    )
                },
            }
        }),
{
    if event is Escape && state.wall.owner != 0 {
        layout::laws::recall_comes_home_the_short_way(state.wall);
    }
}

/// Pressing a button and letting it go again leaves the host as it was before,
/// short of the most buttons that it can count.
pub proof fn a_click_leaves_no_drag(state: HostState, button: protocol::Button)
    requires
        state.wf(),
        state.held < 255,
        state.wall.locked == (state.held > 0),
    ensures
        state.followed(CaptureEvent::Button { button, down: true }).followed(
            CaptureEvent::Button { button, down: false },
        ) == state,
{
}

/// What motion makes the host say. On the host itself, nothing. On the device
/// that has the pointer, the new place. When it crosses: the device that is left,
/// if it is connected, lets go and hears so; then, coming home, the cursor is put
/// where it arrives and local input returns; or, going out, local input is
/// swallowed and the new device, if it is connected, hears where the pointer
/// enters; and the picture is stale.
pub proof fn motion_says_where_the_pointer_is(state: HostState, dx: int, dy: int)
    requires
        state.wf(),
        state.wall.can_move(dx, dy),
    ensures
        ({
            let list = state.motion_acts(dx, dy);
            let after = state.wall.moved(dx, dy);
            let from = id_at(state, state.wall.owner as int);
            let to = id_at(state, after.owner as int);
            let x = (after.cursor.0 - state.wall.devices@[after.owner as int].offset.0) as i32;
            let y = (after.cursor.1 - state.wall.devices@[after.owner as int].offset.1) as i32;
            let left = state.wall.owner != 0 && state.peers@.contains_key(from);
            let n: int = if left {
                2
            } else {
                0
            };
            if after.owner == state.wall.owner {
                &&& after.owner == 0 ==> list == Seq::<Act>::empty()
                &&& after.owner != 0 && state.peers@.contains_key(to) ==> list == seq![
                    Act::Send { to, msg: HostMsg::Input(InputEvent::MoveAbs { x, y }) },
                ]
                &&& after.owner != 0 && !state.peers@.contains_key(to) ==> list == Seq::<
                    Act,
                >::empty()
            } else {
                &&& left ==> list[0] == (Act::Send {
                    to: from,
                    msg: HostMsg::Input(InputEvent::ReleaseAll),
                })
                &&& left ==> list[1] == (Act::Send { to: from, msg: HostMsg::Leave })
                &&& after.owner == 0 ==> {
                    &&& list.len() == n + 3
                    &&& list[n] == (Act::Warp { x, y })
                    &&& list[n + 1] == (Act::Suppress { on: false })
                }
                &&& after.owner != 0 && state.peers@.contains_key(to) ==> {
                    &&& list.len() == n + 3
                    &&& list[n] == (Act::Suppress { on: true })
                    &&& list[n + 1] == (Act::Send { to, msg: HostMsg::Enter { x, y } })
                }
                &&& after.owner != 0 && !state.peers@.contains_key(to) ==> {
                    &&& list.len() == n + 2
                    &&& list[n] == (Act::Suppress { on: true })
                }
                &&& list[list.len() - 1] == Act::MarkDirty
            }
        }),
{
    layout::laws::motion_carries_the_pointer(state.wall, dx, dy);
    assert(state.wall.devices@.len() == state.wall.devices.len());
    let devices = state.wall.devices@;
    let before = state.wall.owner as int;
    let after = state.wall.moved(dx, dy).owner as int;
    ids_differ(state, before);
    ids_differ(state, after);
}

proof fn ids_differ(state: HostState, i: int)
    requires
        state.wf(),
        0 <= i < state.wall.devices@.len(),
    ensures
        i != 0 ==> id_at(state, i) != id_at(state, 0),
{
    let devices = state.wall.devices@;
    if i != 0 {
        assert(devices[0].id@ != devices[i].id@);
        if protocol::hex_of(devices[i].id@) == protocol::hex_of(devices[0].id@) {
            protocol::hex_injective(devices[i].id, devices[0].id);
        }
    }
}

/// Taking the pointer back: the device that had it, if it is connected, lets go
/// and hears so; the cursor is put on this machine, at the point nearest to where
/// the pointer was; local input returns; and the picture is stale. While the
/// pointer is at home already, nothing happens.
pub proof fn recall_says_everything_once(state: HostState)
    requires
        state.wf(),
        state.wall.owner != 0 ==> state.wall.can_reclaim(),
    ensures
        state.wall.owner == 0 ==> state.reclaim_acts() == Seq::<Act>::empty()
            && state.reclaimed() == state,
        state.wall.owner != 0 ==> {
            let list = state.reclaim_acts();
            let from = id_at(state, state.wall.owner as int);
            let left = state.peers@.contains_key(from);
            let n: int = if left {
                2
            } else {
                0
            };
            let after = state.reclaimed();
            &&& list.len() == n + 3
            &&& left ==> list[0] == (Act::Send {
                to: from,
                msg: HostMsg::Input(InputEvent::ReleaseAll),
            })
            &&& left ==> list[1] == (Act::Send { to: from, msg: HostMsg::Leave })
            &&& list[n] == (Act::Warp { x: after.wall.cursor.0, y: after.wall.cursor.1 })
            &&& list[n + 1] == (Act::Suppress { on: false })
            &&& list[n + 2] == Act::MarkDirty
            &&& same_but_wall(after, state)
            &&& after.wall.owner == 0
            &&& !after.wall.locked
            &&& after.wall.devices == state.wall.devices
            &&& layout::laws::is_nearest(
                state.wall.devices@[0],
                state.wall.cursor.0 as int,
                state.wall.cursor.1 as int,
                after.wall.cursor.0 as int,
                after.wall.cursor.1 as int,
            )
        },
{
    if state.wall.owner != 0 {
        layout::laws::recall_comes_home_the_short_way(state.wall);
    }
}

/// The place that the pointer comes home to is the place that the cursor is put.
pub proof fn the_cursor_is_put_where_the_pointer_is(state: HostState)
    requires
        state.wf(),
        state.wall.can_reclaim(),
    ensures
        layout::laws::is_nearest(
            state.wall.devices@[0],
            state.wall.cursor.0 as int,
            state.wall.cursor.1 as int,
            state.home_point().0,
            state.home_point().1,
        ),
{
    layout::laws::recall_comes_home_the_short_way(state.wall);
    layout::laws::snapping_finds_the_nearest_point(
        state.wall.devices@[0],
        state.wall.cursor.0 as int,
        state.wall.cursor.1 as int,
    );
}

/// A captured event can be followed whenever the wall can: a motion that the wall can
/// hold, the hotkey while there is a way home, and everything else at any time; for the
/// real cursor that is because the host is at the origin of the wall.
pub proof fn events_can_be_followed(state: HostState, event: CaptureEvent)
    requires
        state.wf(),
    ensures
        event !is Motion && event !is Escape ==> state.can_follow(event),
        event is Escape && state.wall.owner == 0 ==> state.can_follow(event),
        event is Escape && state.wall.can_reclaim() ==> state.can_follow(event),
        event matches CaptureEvent::Motion { dx, dy } ==> (state.wall.can_move(dx as int, dy as int)
            ==> state.can_follow(event)),
{
}

/// The last word on suppression counts: after some actions local input is
/// suppressed exactly if the last of them that speaks of it says so.
pub proof fn the_last_word_counts(on: bool, list: Seq<Act>, at: int, word: bool)
    requires
        0 <= at < list.len(),
        list[at] == (Act::Suppress { on: word }),
        forall|i: int| at < i < list.len() ==> (#[trigger] list[i]) !is Suppress,
    ensures
        host::suppressed_after(on, list) == word,
    decreases list.len(),
{
    if at < list.len() - 1 {
        assert(list.last() == list[list.len() - 1]);
        let rest = list.drop_last();
        assert(forall|i: int| 0 <= i < rest.len() ==> rest[i] == list[i]);
        the_last_word_counts(on, rest, at, word);
    }
}

/// Where nothing speaks of suppression it stays as it was.
pub proof fn silence_changes_nothing(on: bool, list: Seq<Act>)
    requires
        forall|i: int| 0 <= i < list.len() ==> (#[trigger] list[i]) !is Suppress,
    ensures
        host::suppressed_after(on, list) == on,
    decreases list.len(),
{
    if list.len() > 0 {
        assert(list.last() == list[list.len() - 1]);
        let rest = list.drop_last();
        assert(forall|i: int| 0 <= i < rest.len() ==> rest[i] == list[i]);
        silence_changes_nothing(on, rest);
    }
}

/// An action stands for what it holds.
pub proof fn actions_say_what_they_hold(action: Action)
    ensures
        match action {
            Action::Send { to, msg } => action@ == (Act::Send { to: to@, msg }),
            Action::Broadcast { peers, msg } => {
                &&& action@ matches Act::Broadcast { peers: list, msg: said }
                &&& said == msg
                &&& list.len() == peers@.len()
                &&& forall|i: int| 0 <= i < list.len() ==> #[trigger] list[i] == peers@[i]@
            },
            Action::Warp { x, y } => action@ == (Act::Warp { x, y }),
            Action::Suppress { on } => action@ == (Act::Suppress { on }),
            Action::MarkDirty => action@ == Act::MarkDirty,
            Action::SaveSettings => action@ == Act::SaveSettings,
            Action::Share { clip, apply, peers } => {
                &&& action@ matches Act::Share { clip: shared, apply: here, peers: list }
                &&& shared == clip
                &&& here == apply
                &&& list.len() == peers@.len()
                &&& forall|i: int| 0 <= i < list.len() ==> #[trigger] list[i] == peers@[i]@
            },
        },
{
}

/// A list of actions stands for what each of them holds, in order.
pub proof fn lists_keep_their_order(actions: Seq<Action>, i: int)
    requires
        0 <= i < actions.len(),
    ensures
        host::acts(actions).len() == actions.len(),
        host::acts(actions)[i] == actions[i]@,
{
}

/// Whoever is told something that is for everybody is connected and is not the
/// one that is left out; everybody else that is connected is told, once.
pub proof fn everyone_is_told_once(
    state: HostState,
    list: Seq<Seq<char>>,
    except: Option<Seq<char>>,
    who: Seq<char>,
)
    requires
        state.is_everyone_but(list, except),
    ensures
        list.contains(who) <==> state.peers@.contains_key(who) && except != Some(who),
        forall|i: int, j: int|
            0 <= i < j < list.len() ==> #[trigger] list[i] != #[trigger] list[j],
{
}

/// A device that is gone is marked as gone; every other device, and the host in
/// any case, is as it was.
pub proof fn only_the_one_that_left_is_gone(devices: Seq<Device>, device_hex: Seq<char>, i: int)
    requires
        0 <= i < devices.len(),
        forall|a: int, b: int|
            0 <= a < b < devices.len() ==> (#[trigger] devices[a]).id@ != (
            #[trigger] devices[b]).id@,
    ensures
        ({
            let after = HostState::with_gone(devices, device_hex);
            &&& after.len() == devices.len()
            &&& i != 0 && protocol::hex_of(devices[i].id@) == device_hex ==> after[i] == (Device {
                online: false,
                ..devices[i]
            })
            &&& i == 0 || protocol::hex_of(devices[i].id@) != device_hex ==> after[i] == devices[i]
        }),
{
    layout::hex_from_is_first(devices, 0, device_hex);
    let hit = layout::hex_from(devices, 0, device_hex);
    if protocol::hex_of(devices[i].id@) == device_hex && hit != Some(i) {
        protocol::hex_injective(devices[i].id, devices[hit->0].id);
    }
}

/// Where a joining device goes: where it is, if it is on the wall; where it was
/// left, if it was placed before; and otherwise to the end of the row.
pub proof fn joining_devices_keep_their_place(state: HostState, info: DeviceInfo, i: int)
    ensures
        ({
            let hex = protocol::hex_of(info.id@);
            let devices = state.wall.devices@;
            let known = exists|k: int|
                0 <= k < devices.len() && (#[trigger] devices[k]).id@ == info.id@;
            let end = layout::free_offset(devices, layout::bounds_area(info.displays@));
            &&& 0 <= i < devices.len() && devices[i].id@ == info.id@ && (forall|k: int|
                0 <= k < i ==> (#[trigger] devices[k]).id@ != info.id@) ==> state.joining_offset(
                info,
            ) == devices[i].offset
            &&& !known && state.settings.layout@.contains_key(hex) ==> state.joining_offset(info)
                == state.settings.layout@[hex]
            &&& !known && !state.settings.layout@.contains_key(hex) && layout::fits(end.0)
                && layout::fits(end.1) ==> {
                &&& state.joining_offset(info).0 == end.0
                &&& state.joining_offset(info).1 == end.1
            }
        }),
{
    layout::index_from_is_first(state.wall.devices@, 0, info.id@);
}

/// A device that has joined is the one that said hello, with the monitors it
/// reported, connected, and at the place it was given. A new peer is told this
/// machine's id, name, kind and monitors.
pub proof fn introductions_are_true(
    joined: Device,
    info: DeviceInfo,
    offset: (i32, i32),
    told: DeviceInfo,
    own: Device,
    os: Seq<char>,
)
    ensures
        host::is_joined(joined, info, offset) ==> {
            &&& joined.id@ == info.id@
            &&& joined.name@ == info.name@
            &&& joined.displays@ == info.displays@
            &&& joined.online
            &&& joined.offset == offset
        },
        host::describes(told, own, os) ==> {
            &&& told.id@ == own.id@
            &&& told.name@ == own.name@
            &&& told.os@ == os
            &&& told.displays@ == own.displays@
        },
{
}

/// Only a hello, and only from the device that the handshake was for, is an
/// introduction.
pub proof fn nobody_speaks_for_another(intent: ClientIntent, first: ClientMsg)
    ensures
        host::is_proper_hello(intent, first) <==> exists|device: DeviceInfo|
            first == (ClientMsg::Hello { device }) && #[trigger] device.id@ == intent.device@,
{
    if let ClientMsg::Hello { device } = first {
        assert(first == (ClientMsg::Hello { device }));
    }
}

/// The round trip is the time since the ping was stamped, as far as that can be
/// told and shown.
pub proof fn latency_is_the_time_between(now: u64, stamp: u64)
    ensures
        now < stamp ==> host::latency(now, stamp) == 0,
        0 <= now - stamp <= u32::MAX ==> host::latency(now, stamp) == now - stamp,
        now - stamp > u32::MAX ==> host::latency(now, stamp) == u32::MAX,
{
}

/// A returning device is met with the key that was stored for it, and with no
/// other; a new one with the pairing code, while the window is open.
pub proof fn secrets_are_the_ones_agreed(state: HostState, device_hex: Seq<char>)
    ensures
        state.settings.paired_clients@.contains_key(device_hex) ==> state.secret_for(
            device_hex,
            AuthMode::Stored,
        ) == Some(state.settings.paired_clients@[device_hex]@),
        !state.settings.paired_clients@.contains_key(device_hex) ==> state.secret_for(
            device_hex,
            AuthMode::Stored,
        ) is None,
        state.accepting ==> state.secret_for(device_hex, AuthMode::Code) == Some(
            crypto::code_secret(state.settings.pairing_code@),
        ),
        !state.accepting ==> state.secret_for(device_hex, AuthMode::Code) is None,
{
}

/// The pointer is on a device exactly if that is the device that owns it and not
/// the host; a connection is the current one of a device exactly if its number is
/// the one on the list.
pub proof fn ownership_is_by_id(state: HostState, device_hex: Seq<char>, session: u64)
    ensures
        state.has_pointer(device_hex) <==> state.wall.owner != 0 && id_at(
            state,
            state.wall.owner as int,
        ) == device_hex,
        state.is_current(device_hex, session) <==> state.peers@.contains_key(device_hex)
            && state.peers@[device_hex].session == session,
        state.owner_hex() == id_at(state, state.wall.owner as int),
        state.host_hex() == id_at(state, 0),
{
}

/// A message of a peer can always be taken in, but for one that reports monitors
/// that no coordinates can hold.
pub proof fn messages_can_be_taken_in(state: HostState, device_hex: Seq<char>, msg: ClientMsg)
    ensures
        msg !is DisplaysChanged ==> state.can_take_in(device_hex, msg),
        msg matches ClientMsg::DisplaysChanged { displays } ==> (layout::bounds_area(
            displays@,
        ).fits() ==> state.can_take_in(device_hex, msg)),
{
}

/// What a message of a peer may change: the devices and the list of peers.
pub proof fn messages_leave_the_rest(a: HostState, b: HostState)
    requires
        a.same_but_devices_and_peers(b),
    ensures
        a.wall.owner == b.wall.owner,
        a.wall.cursor == b.wall.cursor,
        a.wall.locked == b.wall.locked,
        a.settings == b.settings,
        a.accepting == b.accepting,
        a.clipboard == b.clipboard,
        a.held == b.held,
        a.next_session == b.next_session,
        a.stopping == b.stopping,
{
}

/// A goodbye is for one peer and says why.
pub proof fn goodbyes_say_why(act: Act, to: Seq<char>, reason: Seq<char>)
    requires
        host::is_goodbye(act, to, reason),
    ensures
        exists|why: String|
            act == (Act::Send { to, msg: HostMsg::Bye { reason: why } }) && #[trigger] why@
                == reason,
{
    if let Act::Send { to: who, msg: HostMsg::Bye { reason: why } } = act {
        assert(why@ == reason);
    }
}

/// What holds of a host at all times: the wall has a host, which is its origin, and an
/// owner, which is the host or is connected; no id is on it twice; every connection has
/// a number that has been given out.
pub proof fn a_host_is_sound(state: HostState, i: int, j: int, who: Seq<char>)
    requires
        state.wf(),
    ensures
        state.wall.devices@.len() >= 1,
        state.wall.owner < state.wall.devices@.len(),
        state.wall.owner == 0 || state.wall.devices@[state.wall.owner as int].online,
        state.wall.devices@[0].offset == (0i32, 0i32),
        0 <= i < j < state.wall.devices@.len() ==> state.wall.devices@[i].id@
            != state.wall.devices@[j].id@,
        0 <= i < state.wall.devices@.len() ==> state.wall.devices@[i].local_bounds@
            == layout::bounds_area(state.wall.devices@[i].displays@),
        state.peers@.contains_key(who) ==> state.peers@[who].session < state.next_session,
        state.peers.wf(),
        state.settings.wf(),
{
}

} // verus!
