//! Host role: own the input, decide where the pointer is, feed the peers.
//!
//! The program around this accepts connections, drains the capture channel and
//! owns one write queue per peer, so a peer on a bad WiFi link cannot slow the
//! pointer down for anybody else. Everything it has to decide is decided here:
//! each event goes in, the state moves on, and the things to do come out as a
//! list of [`Action`]s, to be carried out in order.

use vstd::prelude::*;

use crate::capture::CaptureEvent;
use crate::crypto;
use crate::crypto::{RandomError, Secret, SessionKeys};
use crate::layout;
use crate::layout::{Device, LayoutView, Motion, Wall};
use crate::protocol;
use crate::protocol::{Clip, ClientMsg, DeviceInfo, Display, HostMsg, InputEvent};
use crate::settings;
use crate::settings::Settings;
use crate::table;
use crate::table::Table;
use crate::transport;
use crate::transport::{AuthMode, ClientIntent, TransportError};

pub mod laws;

verus! {

/// A connected peer, from the host's point of view.
#[derive(Debug)]
pub struct Peer {
    pub info: DeviceInfo,
    /// Round-trip time in milliseconds, or `None` before the first pong.
    pub latency_ms: Option<u32>,
    /// Which connection this is. A device that reconnects replaces its own
    /// entry, and this is how the older connection knows not to clean up after
    /// the newer one.
    pub session: u64,
}

/// Something for the program to do.
#[derive(Debug)]
pub enum Action {
    /// Queue a message for one connected peer.
    Send { to: String, msg: HostMsg },
    /// Queue the same message for several connected peers.
    Broadcast { peers: Vec<String>, msg: HostMsg },
    /// Move the real cursor.
    Warp { x: i32, y: i32 },
    /// Turn local delivery of input off or back on.
    Suppress { on: bool },
    /// The UI is stale.
    MarkDirty,
    /// Write the settings to disk.
    SaveSettings,
    /// Share a clipboard: put it on this machine's own where `apply` says so,
    /// and queue it for some peers.
    Share { clip: Clip, apply: bool, peers: Vec<String> },
}

/// The model of an [`Action`].
pub enum Act {
    Send { to: Seq<char>, msg: HostMsg },
    Broadcast { peers: Seq<Seq<char>>, msg: HostMsg },
    Warp { x: i32, y: i32 },
    Suppress { on: bool },
    MarkDirty,
    SaveSettings,
    Share { clip: Clip, apply: bool, peers: Seq<Seq<char>> },
}

/// The texts of a list of strings.
pub open spec fn names(list: Seq<String>) -> Seq<Seq<char>> {
    list.map_values(|s: String| s@)
}

impl View for Action {
    type V = Act;

    open spec fn view(&self) -> Act {
        match *self {
            Action::Send { to, msg } => Act::Send { to: to@, msg },
            Action::Broadcast { peers, msg } => Act::Broadcast { peers: names(peers@), msg },
            Action::Warp { x, y } => Act::Warp { x, y },
            Action::Suppress { on } => Act::Suppress { on },
            Action::MarkDirty => Act::MarkDirty,
            Action::SaveSettings => Act::SaveSettings,
            Action::Share { clip, apply, peers } => Act::Share {
                clip,
                apply,
                peers: names(peers@),
            },
        }
    }
}

pub open spec fn acts(actions: Seq<Action>) -> Seq<Act> {
    actions.map_values(|a: Action| a@)
}

fn emit(out: &mut Vec<Action>, action: Action)
    ensures
        acts(final(out)@) == acts(old(out)@).push(action@),
{
    out.push(action);
    assert(acts(out@) =~= acts(old(out)@).push(action@));
}

/// What reaches a peer: a message to one that is not connected goes nowhere.
pub open spec fn sent(peers: Map<Seq<char>, Peer>, to: Seq<char>, msg: HostMsg) -> Seq<Act> {
    if peers.contains_key(to) {
        seq![Act::Send { to, msg }]
    } else {
        seq![]
    }
}

/// Local input is being suppressed after some actions, given whether it was
/// before.
pub open spec fn suppressed_after(on: bool, acts: Seq<Act>) -> bool
    decreases acts.len(),
{
    if acts.len() == 0 {
        on
    } else {
        match acts.last() {
            Act::Suppress { on } => on,
            _ => suppressed_after(on, acts.drop_last()),
        }
    }
}

/// Everything the host tasks share.
#[derive(Debug)]
pub struct HostState {
    pub wall: Wall,
    /// Who is connected, by hexadecimal device id.
    pub peers: Table<Peer>,
    pub settings: Settings,
    /// Set while the host is willing to pair with an unknown device.
    pub accepting: bool,
    /// Set while this machine's own clipboard is shared.
    pub clipboard: bool,
    /// How many mouse buttons are down. Non-zero means a drag is in flight.
    pub held: u8,
    /// Distinguishes one connection from the next for the same device, so a
    /// reconnect cannot have its predecessor's cleanup tear it down.
    pub next_session: u64,
    /// Set the moment the host starts shutting down.
    pub stopping: bool,
}

/// What the host does after reading one message of a peer.
#[derive(Debug)]
pub enum PeerStep {
    /// Do these things and read on.
    Continue(Vec<Action>),
    /// The peer said goodbye.
    Done,
}

impl HostState {
    /// The host is the origin of the wall, no device is on it twice, the pointer
    /// is where it can be heard about, and every connection has a number that has
    /// been given out.
    pub open spec fn wf(&self) -> bool {
        &&& self.wall.wf()
        &&& self.wall.devices@[0].offset == (0i32, 0i32)
        &&& self.wall.distinct_ids()
        &&& self.wall.owner_reachable()
        &&& self.peers.wf()
        &&& forall|k: Seq<char>| #[trigger]
            self.peers@.contains_key(k) ==> self.peers@[k].session < self.next_session
        &&& self.settings.wf()
    }

    /// The hexadecimal id of the device that owns the pointer.
    pub open spec fn owner_hex(&self) -> Seq<char> {
        protocol::hex_of(self.wall.devices@[self.wall.owner as int].id@)
    }

    /// The hexadecimal id of this machine.
    pub open spec fn host_hex(&self) -> Seq<char> {
        protocol::hex_of(self.wall.devices@[0].id@)
    }

    /// Starts with this machine alone on the wall and, where the cursor can be
    /// found, with the wall lined up with it.
    pub fn new(settings: Settings, displays: Vec<Display>, cursor: Option<(i32, i32)>) -> (r: Self)
        requires
            settings.wf(),
            layout::bounds_area(displays@).fits(),
            layout::lone_device_placed(displays@),
        ensures
            r.wf(),
            r.settings == settings,
            r.peers@ == Map::<Seq<char>, Peer>::empty(),
            r.accepting,
            r.clipboard == settings.clipboard_sync,
            r.held == 0,
            r.next_session == 1,
            !r.stopping,
            r.wall.devices@.len() == 1,
            r.wall.devices@[0].id@ == settings::id_or_zero(
                vstd::utf8::encode_utf8(settings.device_id@),
            ),
            r.wall.devices@[0].name@ == settings.device_name@,
            r.wall.devices@[0].displays@ == displays@,
            r.wall.devices@[0].offset == (0i32, 0i32),
            r.wall.devices@[0].online,
            r.wall.owner == 0,
            !r.wall.locked,
            match cursor {
                Some(at) => r.wall.cursor == at,
                None => (r.wall.cursor.0 as int, r.wall.cursor.1 as int)
                    == r.wall.devices@[0].snap_at(0, 0),
            },
    {
        let id = settings.id();
        let device = Device::new(id, settings.device_name.clone(), displays);
        proof {
            layout::lone_device_is_placed(device);
        }
        let mut wall = Wall::new(device);
        // Line the host's wall position up with the real cursor straight away.
        if let Some((x, y)) = cursor {
            wall.sync_local(x, y);
        }
        let clipboard = settings.clipboard_sync;
        HostState {
            wall,
            peers: Table::new(),
            settings,
            accepting: true,
            clipboard,
            held: 0,
            next_session: 1,
            stopping: false,
        }
    }

    /// Queues a message for one peer by hex id, if it is connected.
    fn send_hex(&self, out: &mut Vec<Action>, device_hex: &str, msg: HostMsg)
        requires
            self.peers.wf(),
        ensures
            acts(final(out)@) == acts(old(out)@) + sent(self.peers@, device_hex@, msg),
    {
        let ghost before = acts(out@);
        if self.peers.find(device_hex).is_some() {
            emit(out, Action::Send { to: device_hex.to_owned(), msg });
            assert(acts(out@) =~= before + sent(self.peers@, device_hex@, msg));
        } else {
            assert(acts(out@) =~= before + sent(self.peers@, device_hex@, msg));
        }
    }

    /// Everybody who is connected, but for one device where there is one to
    /// leave out.
    pub open spec fn is_everyone_but(&self, list: Seq<Seq<char>>, except: Option<Seq<char>>) -> bool {
        &&& list.no_duplicates()
        &&& forall|k: Seq<char>| #[trigger]
            list.contains(k) <==> self.peers@.contains_key(k) && except != Some(k)
    }

    fn everyone_but(&self, except: Option<&str>) -> (r: Vec<String>)
        requires
            self.peers.wf(),
        ensures
            self.is_everyone_but(
                names(r@),
                match except {
                    Some(s) => Some(s@),
                    None => None,
                },
            ),
    {
        let ghost skip = match except {
            Some(s) => Some(s@),
            None => None,
        };
        let ghost entries = self.peers.entries@;
        let ghost keys = table::keys_of(entries);
        let mut out: Vec<String> = Vec::new();
        let mut i: usize = 0;
        while i < self.peers.entries.len()
            invariant
                i <= entries.len(),
                entries == self.peers.entries@,
                keys == table::keys_of(entries),
                keys.no_duplicates(),
                skip == match except {
                    Some(s) => Some(s@),
                    None => None,
                },
                names(out@).no_duplicates(),
                forall|k: Seq<char>| #[trigger]
                    names(out@).contains(k) <==> keys.take(i as int).contains(k) && skip != Some(k),
            decreases entries.len() - i,
        {
            let key = self.peers.entries[i].0.as_str();
            let leave_out = match except {
                Some(s) => *s == *key,
                None => false,
            };
            let ghost before = names(out@);
            let ghost seen = keys.take(i as int);
            assert(keys.take(i + 1) =~= seen.push(key@));
            if !leave_out {
                assert(!seen.contains(key@)) by {
                    if seen.contains(key@) {
                        let j = choose|j: int| 0 <= j < seen.len() && seen[j] == key@;
                        assert(keys[j] != keys[i as int]);
                    }
                }
                assert(!before.contains(key@));
                out.push(key.to_owned());
                assert(names(out@) =~= before.push(key@));
                assert forall|k: Seq<char>| #[trigger] names(out@).contains(k) <==> keys.take(
                    i + 1,
                ).contains(k) && skip != Some(k) by {
                    push_contains(before, key@, k);
                    push_contains(seen, key@, k);
                }
            } else {
                assert forall|k: Seq<char>| #[trigger] names(out@).contains(k) <==> keys.take(
                    i + 1,
                ).contains(k) && skip != Some(k) by {
                    push_contains(seen, key@, k);
                }
            }
            i += 1;
        }
        proof {
            assert(keys.take(keys.len() as int) =~= keys);
            table::map_of_entries(entries);
            assert forall|k: Seq<char>| #[trigger] names(out@).contains(k) <==> self.peers@.contains_key(
                k,
            ) && skip != Some(k) by {
                if keys.contains(k) {
                    let j = choose|j: int| 0 <= j < keys.len() && keys[j] == k;
                    assert(entries[j].0@ == k);
                }
                if self.peers@.contains_key(k) {
                    let j = choose|j: int| 0 <= j < entries.len() && (#[trigger] entries[j]).0@ == k;
                    assert(keys[j] == k);
                }
            }
        }
        out
    }

    /// The wall as the layout editor draws it.
    pub fn layout_view(&self) -> (r: LayoutView)
        requires
            self.wall.wf(),
            forall|i: int|
                0 <= i < self.wall.devices@.len() ==> (
                #[trigger] self.wall.devices@[i]).wall_area().fits(),
        ensures
            r.owner@ == self.owner_hex(),
            r.devices@.len() == self.wall.devices@.len(),
            forall|i: int|
                0 <= i < self.wall.devices@.len() ==> layout::shows(
                    #[trigger] r.devices@[i],
                    self.wall.devices@[i],
                    i == 0,
                ),
    {
        self.wall.view()
    }

    /// Where the pointer appears on this machine when it is taken back.
    pub open spec fn home_point(&self) -> (int, int) {
        let wall = self.wall;
        wall.local_of(
            0,
            wall.devices@[0].snap_at(wall.cursor.0 as int, wall.cursor.1 as int),
        )
    }

    /// What happens when the pointer is taken back, in this order: the device
    /// that had it lets go of everything and hears that control has left; the
    /// real cursor is put in place; local input comes back.
    pub open spec fn reclaim_acts(&self) -> Seq<Act> {
        if self.wall.owner == 0 {
            seq![]
        } else {
            let at = self.home_point();
            sent(self.peers@, self.owner_hex(), HostMsg::Input(InputEvent::ReleaseAll)) + sent(
                self.peers@,
                self.owner_hex(),
                HostMsg::Leave,
            ) + seq![
                Act::Warp { x: at.0 as i32, y: at.1 as i32 },
                Act::Suppress { on: false },
                Act::MarkDirty,
            ]
        }
    }

    /// The state once the pointer is back.
    pub open spec fn reclaimed(self) -> HostState {
        HostState {
            wall: if self.wall.owner == 0 {
                self.wall
            } else {
                self.wall.reclaimed()
            },
            ..self
        }
    }

    /// Pulls the pointer back to this machine. Shared by the escape hotkey, the
    /// UI button and any peer that vanishes while holding it, because all three
    /// have to do the same four things in the same order.
    pub fn take_pointer_back(&mut self) -> (r: Vec<Action>)
        requires
            old(self).wf(),
            old(self).wall.owner != 0 ==> old(self).wall.can_reclaim(),
        ensures
            *final(self) == old(self).reclaimed(),
            acts(r@) == old(self).reclaim_acts(),
            final(self).wf(),
    {
        let mut out: Vec<Action> = Vec::new();
        assert(acts(out@) =~= seq![]);
        if self.wall.is_local() {
            return out;
        }
        let from = protocol::id_to_hex(&self.wall.devices[self.wall.owner].id);
        self.wall.take_local();
        let (x, y) = self.wall.owner_local();
        // Release first: the peer must not be left holding a key it can no
        // longer be told about.
        self.send_hex(&mut out, from.as_str(), HostMsg::Input(InputEvent::ReleaseAll));
        self.send_hex(&mut out, from.as_str(), HostMsg::Leave);
        // Warp before un-suppressing, or the first local event lands wherever
        // the cursor was parked when control left.
        emit(&mut out, Action::Warp { x, y });
        emit(&mut out, Action::Suppress { on: false });
        emit(&mut out, Action::MarkDirty);
        assert(acts(out@) =~= old(self).reclaim_acts());
        out
    }

    /// Cuts a peer off with a reason it can show the user.
    ///
    /// Only the goodbye is sent here: queueing it closes the writer, the reader
    /// then fails, and the usual per-connection cleanup runs. Removing the peer
    /// from here instead would race that cleanup for the same entry.
    pub fn disconnect_peer(&self, device_hex: &str, reason: &str) -> (r: Vec<Action>)
        requires
            self.peers.wf(),
        ensures
            if self.peers@.contains_key(device_hex@) {
                r@.len() == 1 && is_goodbye(r@[0]@, device_hex@, reason@)
            } else {
                r@.len() == 0
            },
    {
        let mut out: Vec<Action> = Vec::new();
        let reason = reason.to_owned();
        self.send_hex(&mut out, device_hex, HostMsg::Bye { reason });
        proof {
            assert(acts(out@).len() == out@.len());
            if out@.len() == 1 {
                assert(acts(out@)[0] == out@[0]@);
            }
        }
        out
    }

    /// The secret to authenticate a connecting client with, if there is one.
    pub open spec fn secret_for(&self, device_hex: Seq<char>, mode: AuthMode) -> Option<Seq<u8>> {
        match mode {
            AuthMode::Stored => if self.settings.paired_clients@.contains_key(device_hex) {
                Some(self.settings.paired_clients@[device_hex]@)
            } else {
                None
            },
            AuthMode::Code => if self.accepting {
                Some(crypto::code_secret(self.settings.pairing_code@))
            } else {
                None
            },
        }
    }

    /// The secret to authenticate a connecting client with.
    ///
    /// A stored key is tried first so a paired device reconnects silently; the
    /// pairing code only applies while the host is accepting new devices.
    pub fn auth_for(&self, device_hex: &str, mode: AuthMode) -> (r: Option<Secret>)
        requires
            self.settings.wf(),
        ensures
            match r {
                Some(key) => self.secret_for(device_hex@, mode) == Some(key@),
                None => self.secret_for(device_hex@, mode) is None,
            },
    {
        match mode {
            AuthMode::Stored => match self.settings.paired_clients.get(device_hex) {
                Some(key) => Some(*key),
                None => None,
            },
            AuthMode::Code => if self.accepting {
                Some(crypto::secret_from_code(self.settings.pairing_code.as_str()))
            } else {
                None
            },
        }
    }

    /// Meets a connecting client: reads who it is, picks the secret, and gives
    /// the keys together with the reply to send. A client that is not one of
    /// ours fails the handshake; one that there is no secret for is turned away
    /// before any key is derived.
    pub fn meet(&self, intro: &[u8; 54]) -> (r: Result<
        (ClientIntent, SessionKeys, Vec<u8>),
        TransportError,
    >)
        requires
            self.settings.wf(),
        ensures
            ({
                let understood = transport::speaks_our_version(intro@) && intro@[5] <= 1;
                let device_hex = protocol::hex_of(intro@.subrange(6, 22));
                match r {
                    Err(TransportError::Handshake) => !understood,
                    Err(TransportError::Rejected) => {
                        &&& understood
                        &&& exists|mode: AuthMode|
                            #[trigger] mode.byte() == intro@[5] && self.secret_for(
                                device_hex,
                                mode,
                            ) is None
                    },
                    Err(_) => false,
                    Ok((intent, keys, reply)) => {
                        let auth = self.secret_for(device_hex, intent.mode);
                        &&& understood
                        &&& intent.mode.byte() == intro@[5]
                        &&& intent.device@ == intro@.subrange(6, 22)
                        &&& intent.client_public@ == intro@.subrange(22, 54)
                        &&& auth is Some
                        &&& transport::is_host_answer(intent, auth->0, keys, reply@)
                    },
                }
            }),
    {
        let intent = match transport::host_read_intent(intro) {
            Ok(intent) => intent,
            Err(e) => {
                return Err(e);
            },
        };
        let device_hex = protocol::id_to_hex(&intent.device);
        let auth = match self.auth_for(device_hex.as_str(), intent.mode) {
            Some(auth) => auth,
            None => {
                return Err(TransportError::Rejected);
            },
        };
        let (keys, reply) = transport::host_finish(&intent, &auth);
        Ok((intent, keys, reply))
    }

    /// The action list for one motion sample.
    pub open spec fn motion_acts(&self, dx: int, dy: int) -> Seq<Act> {
        let after = HostState { wall: self.wall.moved(dx, dy), ..*self };
        let from = self.owner_hex();
        let to = after.owner_hex();
        match self.wall.motion(dx, dy) {
            Motion::Local { .. } => seq![],
            Motion::Remote { x, y, .. } => sent(
                self.peers@,
                to,
                HostMsg::Input(InputEvent::MoveAbs { x, y }),
            ),
            Motion::Switch { x, y, .. } => {
                let leave = if from != self.host_hex() {
                    sent(self.peers@, from, HostMsg::Input(InputEvent::ReleaseAll)) + sent(
                        self.peers@,
                        from,
                        HostMsg::Leave,
                    )
                } else {
                    seq![]
                };
                let arrive = if to == self.host_hex() {
                    seq![Act::Warp { x, y }, Act::Suppress { on: false }]
                } else {
                    seq![Act::Suppress { on: true }] + sent(
                        self.peers@,
                        to,
                        HostMsg::Enter { x, y },
                    )
                };
                leave + arrive + seq![Act::MarkDirty]
            },
        }
    }

    /// Feeds one motion sample into the wall and does whatever it asks for.
    pub fn on_motion(&mut self, dx: i32, dy: i32) -> (r: Vec<Action>)
        requires
            old(self).wf(),
            old(self).wall.can_move(dx as int, dy as int),
        ensures
            *final(self) == (HostState {
                wall: old(self).wall.moved(dx as int, dy as int),
                ..*old(self)
            }),
            acts(r@) == old(self).motion_acts(dx as int, dy as int),
            final(self).wf(),
    {
        let mut out: Vec<Action> = Vec::new();
        assert(acts(out@) =~= seq![]);
        let before = self.wall.owner();
        let motion = self.wall.move_by(dx, dy);
        let after = self.wall.owner();
        let from = protocol::id_to_hex(&self.wall.devices[before].id);
        let to = protocol::id_to_hex(&self.wall.devices[after].id);
        let host_hex = protocol::id_to_hex(&self.wall.host().id);
        match motion {
            // Nothing to do: the real cursor moved on its own. Warping here would
            // fight the OS and add a frame of jitter.
            Motion::Local { .. } => {},
            Motion::Remote { x, y, .. } => {
                self.send_hex(
                    &mut out,
                    to.as_str(),
                    HostMsg::Input(InputEvent::MoveAbs { x, y }),
                );
            },
            Motion::Switch { x, y, .. } => {
                if *from.as_str() != *host_hex.as_str() {
                    // Let go of whatever the old owner is holding before it stops
                    // hearing from us, then tell it control has left.
                    self.send_hex(
                        &mut out,
                        from.as_str(),
                        HostMsg::Input(InputEvent::ReleaseAll),
                    );
                    self.send_hex(&mut out, from.as_str(), HostMsg::Leave);
                }
                if *to.as_str() == *host_hex.as_str() {
                    // Coming home: put the real cursor where the wall says before
                    // letting local input through, or the first event lands
                    // wherever the cursor was parked when control left.
                    emit(&mut out, Action::Warp { x, y });
                    emit(&mut out, Action::Suppress { on: false });
                } else {
                    // Going out: swallow local input first, so nothing leaks into
                    // the host's own windows during the crossing.
                    emit(&mut out, Action::Suppress { on: true });
                    self.send_hex(&mut out, to.as_str(), HostMsg::Enter { x, y });
                }
                emit(&mut out, Action::MarkDirty);
            },
        }
        assert(acts(out@) =~= old(self).motion_acts(dx as int, dy as int));
        out
    }

    /// Sends a non-motion event to whoever owns the pointer. Events that belong
    /// to the host are left alone: the OS already delivered them.
    pub fn forward(&self, event: InputEvent) -> (r: Vec<Action>)
        requires
            self.wall.wf(),
            self.peers.wf(),
        ensures
            acts(r@) == if self.wall.owner == 0 {
                seq![]
            } else {
                sent(self.peers@, self.owner_hex(), HostMsg::Input(event))
            },
    {
        let mut out: Vec<Action> = Vec::new();
        assert(acts(out@) =~= seq![]);
        if !self.wall.is_local() {
            let target = protocol::id_to_hex(&self.wall.devices[self.wall.owner].id);
            self.send_hex(&mut out, target.as_str(), HostMsg::Input(event));
            assert(acts(out@) =~= sent(self.peers@, self.owner_hex(), HostMsg::Input(event)));
        }
        out
    }

    /// How many buttons are down after one more went down or up.
    pub open spec fn held_after(&self, down: bool) -> u8 {
        if down {
            if self.held == u8::MAX {
                self.held
            } else {
                (self.held + 1) as u8
            }
        } else if self.held == 0 {
            0
        } else {
            (self.held - 1) as u8
        }
    }

    /// The captured event is one that the wall can follow.
    pub open spec fn can_follow(&self, event: CaptureEvent) -> bool {
        match event {
            CaptureEvent::Motion { dx, dy } => self.wall.can_move(dx as int, dy as int),
            CaptureEvent::MotionAbs { x, y } => self.wall.can_sync(x as int, y as int),
            CaptureEvent::Escape => self.wall.owner != 0 ==> self.wall.can_reclaim(),
            _ => true,
        }
    }

    /// The state after one captured event.
    pub open spec fn followed(self, event: CaptureEvent) -> HostState {
        match event {
            CaptureEvent::Motion { dx, dy } => HostState {
                wall: self.wall.moved(dx as int, dy as int),
                ..self
            },
            CaptureEvent::MotionAbs { x, y } => HostState {
                wall: self.wall.synced(x as int, y as int),
                ..self
            },
            CaptureEvent::Button { down, .. } => HostState {
                held: self.held_after(down),
                wall: Wall { locked: self.held_after(down) > 0, ..self.wall },
                ..self
            },
            CaptureEvent::Escape => HostState {
                held: 0,
                wall: Wall { locked: false, ..self.wall },
                ..self
            }.reclaimed(),
            _ => self,
        }
    }

    /// What one captured event makes the host do.
    pub open spec fn follow_acts(&self, event: CaptureEvent) -> Seq<Act> {
        let pass_on = |event: InputEvent|
            if self.wall.owner == 0 {
                seq![]
            } else {
                sent(self.peers@, self.owner_hex(), HostMsg::Input(event))
            };
        match event {
            CaptureEvent::Motion { dx, dy } => self.motion_acts(dx as int, dy as int),
            CaptureEvent::MotionAbs { .. } => seq![],
            CaptureEvent::Button { button, down } => pass_on(InputEvent::Button { button, down }),
            CaptureEvent::Wheel { dx, dy } => pass_on(InputEvent::Wheel { dx, dy }),
            CaptureEvent::Key { vk, scan, ext, down } => pass_on(
                InputEvent::Key { vk, scan, ext, down },
            ),
            CaptureEvent::Escape => self.reclaim_acts(),
        }
    }

    /// Drives the wall with one captured event. This is the latency-critical
    /// path, so it is deliberately plain.
    pub fn on_capture(&mut self, event: CaptureEvent) -> (r: Vec<Action>)
        requires
            old(self).wf(),
            old(self).can_follow(event),
        ensures
            *final(self) == old(self).followed(event),
            acts(r@) == old(self).follow_acts(event),
            final(self).wf(),
    {
        match event {
            CaptureEvent::Motion { dx, dy } => self.on_motion(dx, dy),
            CaptureEvent::MotionAbs { x, y } => {
                // Only meaningful while control is local; `sync_local` ignores it
                // otherwise. This is what keeps the wall in step with anything
                // else that moves the cursor.
                self.wall.sync_local(x, y);
                let out: Vec<Action> = Vec::new();
                assert(acts(out@) =~= seq![]);
                out
            },
            CaptureEvent::Button { button, down } => {
                // A drag pins the pointer: releasing a button on a different
                // machine from where it was pressed leaves the original one stuck
                // mid-drag.
                self.held = if down {
                    self.held.saturating_add(1)
                } else {
                    self.held.saturating_sub(1)
                };
                self.wall.set_locked(self.held > 0);
                self.forward(InputEvent::Button { button, down })
            },
            CaptureEvent::Wheel { dx, dy } => self.forward(InputEvent::Wheel { dx, dy }),
            CaptureEvent::Key { vk, scan, ext, down } => self.forward(
                InputEvent::Key { vk, scan, ext, down },
            ),
            CaptureEvent::Escape => {
                self.held = 0;
                self.wall.set_locked(false);
                self.take_pointer_back()
            },
        }
    }

    /// Whether [`HostState::on_capture`] may be called with this event.
    pub fn may_follow(&self, event: CaptureEvent) -> (r: bool)
        requires
            self.wf(),
        ensures
            r == self.can_follow(event),
    {
        match event {
            CaptureEvent::Motion { dx, dy } => self.wall.may_move(dx, dy),
            CaptureEvent::MotionAbs { x, y } => self.wall.may_sync(x, y),
            CaptureEvent::Escape => self.wall.is_local() || self.wall.may_reclaim(),
            _ => true,
        }
    }
}

/// What a new peer is told about this machine.
pub open spec fn describes(info: DeviceInfo, host: Device, os: Seq<char>) -> bool {
    &&& info.id == host.id
    &&& info.name@ == host.name@
    &&& info.os@ == os
    &&& info.displays@ == host.displays@
}

/// The first message of a client is the one it has to be: a hello from the
/// device that the handshake was for.
pub open spec fn is_proper_hello(intent: ClientIntent, first: ClientMsg) -> bool {
    first matches ClientMsg::Hello { device } && device.id@ == intent.device@
}

/// Whether a client's first message is worth answering. To be asked before a
/// key is minted for it.
pub fn may_greet(intent: &ClientIntent, first: &ClientMsg) -> (r: bool)
    ensures
        r == is_proper_hello(*intent, *first),
{
    match first {
        ClientMsg::Hello { device } => protocol::same_id(&device.id, &intent.device),
        _ => false,
    }
}

/// A device as it is when it has just (re)joined the wall.
pub open spec fn is_joined(after: Device, info: DeviceInfo, offset: (i32, i32)) -> bool {
    &&& after.id@ == info.id@
    &&& after.name@ == info.name@
    &&& after.displays@ == info.displays@
    &&& after.online
    &&& after.offset == offset
}

/// The round-trip time shown for a pong: never negative, and capped at what the
/// display can hold.
pub open spec fn latency(now: u64, stamp: u64) -> u32 {
    let rtt = if now >= stamp {
        now - stamp
    } else {
        0
    };
    if rtt > u32::MAX {
        u32::MAX
    } else {
        rtt as u32
    }
}

impl HostState {
    /// Answers a client's first message, once the channel is up.
    ///
    /// `psk` is what [`mint_key`] gave for the client's mode. The id is
    /// authenticated by the handshake, so a client claiming to be somebody else
    /// in its hello is not something to take at face value.
    pub fn greet(
        &mut self,
        intent: &ClientIntent,
        first: ClientMsg,
        psk: Option<Secret>,
        os: String,
    ) -> (r: Result<(DeviceInfo, HostMsg, Vec<Action>), TransportError>)
        requires
            old(self).wf(),
            psk is Some <==> intent.mode == AuthMode::Code,
        ensures
            final(self).wf(),
            r is Ok <==> is_proper_hello(*intent, first),
            r is Err ==> r->Err_0 is Handshake && *final(self) == *old(self),
            r is Ok ==> {
                let (device, welcome, actions) = r->Ok_0;
                &&& first == (ClientMsg::Hello { device })
                &&& welcome matches HostMsg::Welcome { host, psk: issued, clipboard_sync } && {
                    &&& describes(host, old(self).wall.devices@[0], os@)
                    &&& issued == psk
                    &&& clipboard_sync == old(self).settings.clipboard_sync
                }
                &&& *final(self) == (HostState {
                    settings: Settings {
                        paired_clients: final(self).settings.paired_clients,
                        ..old(self).settings
                    },
                    ..*old(self)
                })
                &&& match psk {
                    Some(key) => {
                        &&& final(self).settings.paired_clients@ == old(
                            self).settings.paired_clients@.insert(
                            protocol::hex_of(intent.device@),
                            key,
                        )
                        &&& acts(actions@) == seq![Act::SaveSettings]
                    },
                    None => {
                        &&& final(self).settings.paired_clients == old(self).settings.paired_clients
                        &&& acts(actions@) == Seq::<Act>::empty()
                    },
                }
            },
    {
        let device = match first {
            ClientMsg::Hello { device } => device,
            _ => {
                return Err(TransportError::Handshake);
            },
        };
        if !protocol::same_id(&device.id, &intent.device) {
            return Err(TransportError::Handshake);
        }
        let mut actions: Vec<Action> = Vec::new();
        assert(acts(actions@) =~= seq![]);
        // First contact: remember the long-term key.
        if let Some(key) = psk {
            self.settings.paired_clients.insert(protocol::id_to_hex(&intent.device), key);
            emit(&mut actions, Action::SaveSettings);
            assert(acts(actions@) =~= seq![Act::SaveSettings]);
        }
        let clipboard_sync = self.settings.clipboard_sync;
        let host = self.wall.host();
        let info = DeviceInfo {
            id: host.id,
            name: host.name.clone(),
            os,
            displays: protocol::copy_displays(&host.displays),
        };
        Ok((device, HostMsg::Welcome { host: info, psk, clipboard_sync }, actions))
    }

    /// The offset a joining device gets. One that is on the wall already stays
    /// where it is; one that the user has positioned before goes back where they
    /// left it, rather than to the end of the row.
    pub open spec fn joining_offset(&self, info: DeviceInfo) -> (i32, i32) {
        let hex = protocol::hex_of(info.id@);
        match layout::index_from(self.wall.devices@, 0, info.id@) {
            Some(i) => self.wall.devices@[i].offset,
            None => if self.settings.layout@.contains_key(hex) {
                self.settings.layout@[hex]
            } else {
                let at = layout::free_offset(
                    self.wall.devices@,
                    layout::bounds_area(info.displays@),
                );
                (at.0 as i32, at.1 as i32)
            },
        }
    }

    /// Puts a device that has been welcomed on the wall and on the list of
    /// peers. Gives the number of the connection.
    pub fn join(&mut self, device: DeviceInfo) -> (r: (u64, Vec<Action>))
        requires
            old(self).wf(),
            old(self).wall.can_upsert(device.id@, device.displays@),
            old(self).next_session < u64::MAX,
        ensures
            final(self).wf(),
            r.0 == old(self).next_session,
            acts(r.1@) == seq![Act::MarkDirty],
            final(self).next_session == old(self).next_session + 1,
            final(self).settings == old(self).settings,
            final(self).accepting == old(self).accepting,
            final(self).clipboard == old(self).clipboard,
            final(self).held == old(self).held,
            final(self).stopping == old(self).stopping,
            final(self).wall.owner == old(self).wall.owner,
            final(self).wall.cursor == old(self).wall.cursor,
            final(self).wall.locked == old(self).wall.locked,
            final(self).peers@ == old(self).peers@.insert(
                protocol::hex_of(device.id@),
                (Peer { info: device, latency_ms: None, session: r.0 }),
            ),
            forall|before: u64|
                old(self).is_current(protocol::hex_of(device.id@), before) ==> !(
                #[trigger] final(self).is_current(protocol::hex_of(device.id@), before)),
            ({
                let before = old(self).wall.devices@;
                let after = final(self).wall.devices@;
                let known = layout::index_from(before, 0, device.id@);
                let at = if known is Some {
                    known->0
                } else {
                    before.len() as int
                };
                &&& after.len() == if known is Some {
                    before.len()
                } else {
                    before.len() + 1
                }
                &&& is_joined(after[at], device, old(self).joining_offset(device))
                &&& forall|i: int|
                    0 <= i < before.len() && i != at ==> #[trigger] after[i] == before[i]
            }),
    {
        let session = self.next_session;
        self.next_session = session + 1;
        let device_hex = protocol::id_to_hex(&device.id);
        let known = self.wall.index_of(&device.id);
        let idx = self.wall.upsert(
            device.id,
            device.name.clone(),
            protocol::copy_displays(&device.displays),
        );
        if known.is_none() {
            let saved = match self.settings.layout.get(device_hex.as_str()) {
                Some(at) => Some(*at),
                None => None,
            };
            if let Some((x, y)) = saved {
                self.wall.set_offset(idx, x, y);
            }
        }
        self.peers.insert(device_hex, Peer { info: device, latency_ms: None, session });
        let mut actions: Vec<Action> = Vec::new();
        emit(&mut actions, Action::MarkDirty);
        assert(acts(actions@) =~= seq![Act::MarkDirty]);
        (session, actions)
    }

    /// The entry on the list of peers belongs to this connection.
    pub open spec fn is_current(&self, device_hex: Seq<char>, session: u64) -> bool {
        self.peers@.contains_key(device_hex) && self.peers@[device_hex].session == session
    }

    /// The pointer is on this device.
    pub open spec fn has_pointer(&self, device_hex: Seq<char>) -> bool {
        self.wall.owner != 0 && self.owner_hex() == device_hex
    }

    /// The devices with one of them, if it is not the host, marked as gone.
    pub open spec fn with_gone(devices: Seq<Device>, device_hex: Seq<char>) -> Seq<Device> {
        match layout::hex_from(devices, 0, device_hex) {
            Some(i) => if i == 0 {
                devices
            } else {
                devices.update(i, (Device { online: false, ..devices[i] }))
            },
            None => devices,
        }
    }

    /// Whether a device can be let go of: the pointer is not on it, or can come
    /// back from it.
    pub fn may_disconnect(&self, device_hex: &str) -> (r: bool)
        requires
            self.wf(),
        ensures
            r == (self.has_pointer(device_hex@) ==> self.wall.can_reclaim()),
    {
        self.wall.is_local() || *protocol::id_to_hex(
            &self.wall.devices[self.wall.owner].id,
        ).as_str() != *device_hex || self.wall.may_reclaim()
    }

    /// Drops a peer, but only if the entry still belongs to this connection.
    pub fn disconnect(&mut self, device_hex: &str, session: u64) -> (r: Vec<Action>)
        requires
            old(self).wf(),
            old(self).has_pointer(device_hex@) ==> old(self).wall.can_reclaim(),
        ensures
            final(self).wf(),
            suppressed_after(old(self).wall.owner != 0, acts(r@)) == (final(self).wall.owner != 0),
            !old(self).is_current(device_hex@, session) ==> *final(self) == *old(self)
                && r@.len() == 0,
            old(self).is_current(device_hex@, session) ==> {
                let home = if old(self).has_pointer(device_hex@) {
                    old(self).reclaimed().wall
                } else {
                    old(self).wall
                };
                &&& final(self).peers@ == old(self).peers@.remove(device_hex@)
                &&& final(self).settings == old(self).settings
                &&& final(self).accepting == old(self).accepting
                &&& final(self).clipboard == old(self).clipboard
                &&& final(self).held == old(self).held
                &&& final(self).next_session == old(self).next_session
                &&& final(self).stopping == old(self).stopping
                &&& final(self).wall.owner == home.owner
                &&& final(self).wall.cursor == home.cursor
                &&& final(self).wall.locked == home.locked
                &&& final(self).wall.devices@ == HostState::with_gone(
                    old(self).wall.devices@,
                    device_hex@,
                )
                &&& acts(r@) == if old(self).has_pointer(device_hex@) {
                    let at = old(self).home_point();
                    seq![
                        Act::Warp { x: at.0 as i32, y: at.1 as i32 },
                        Act::Suppress { on: false },
                        Act::MarkDirty,
                        Act::MarkDirty,
                    ]
                } else {
                    seq![Act::MarkDirty]
                }
            },
    {
        let mut out: Vec<Action> = Vec::new();
        assert(acts(out@) =~= seq![]);
        match self.peers.get(device_hex) {
            // A newer connection for the same device already took over.
            Some(peer) => if peer.session != session {
                return out;
            },
            None => {
                return out;
            },
        }
        self.peers.remove(device_hex);
        // Take the pointer back first if this peer had it, then mark it offline so
        // it cannot be crossed onto while it is gone.
        let had_pointer = !self.wall.is_local() && *protocol::id_to_hex(
            &self.wall.devices[self.wall.owner].id,
        ).as_str() == *device_hex;
        if had_pointer {
            out = self.take_pointer_back();
        }
        proof {
            layout::hex_from_is_first(self.wall.devices@, 0, device_hex@);
        }
        if let Some(idx) = self.wall.index_of_hex(device_hex) {
            self.wall.set_online(idx, false);
        }
        emit(&mut out, Action::MarkDirty);
        proof {
            reveal_with_fuel(suppressed_after, 5);
            let at = old(self).home_point();
            if had_pointer {
                assert(acts(out@) =~= seq![
                    Act::Warp { x: at.0 as i32, y: at.1 as i32 },
                    Act::Suppress { on: false },
                    Act::MarkDirty,
                    Act::MarkDirty,
                ]);
            } else {
                assert(acts(out@) =~= seq![Act::MarkDirty]);
            }
        }
        out
    }
}

impl HostState {
    /// Only the wall's devices and the list of peers may differ.
    pub open spec fn same_but_devices_and_peers(&self, other: HostState) -> bool {
        &&& self.wall.owner == other.wall.owner
        &&& self.wall.cursor == other.wall.cursor
        &&& self.wall.locked == other.wall.locked
        &&& self.settings == other.settings
        &&& self.accepting == other.accepting
        &&& self.clipboard == other.clipboard
        &&& self.held == other.held
        &&& self.next_session == other.next_session
        &&& self.stopping == other.stopping
    }

    /// A message of a peer can be taken in: the monitors it reports, if any,
    /// have a bounding box that the wall can hold.
    pub open spec fn can_take_in(&self, device_hex: Seq<char>, msg: ClientMsg) -> bool {
        match msg {
            ClientMsg::DisplaysChanged { displays } => layout::hex_from(
                self.wall.devices@,
                0,
                device_hex,
            ) is Some ==> layout::bounds_area(displays@).fits(),
            _ => true,
        }
    }

    /// Whether [`HostState::on_client_msg`] may be called with this message.
    pub fn may_take_in(&self, device_hex: &str, msg: &ClientMsg) -> (r: bool)
        ensures
            r == self.can_take_in(device_hex@, *msg),
    {
        match msg {
            ClientMsg::DisplaysChanged { displays } => {
                self.wall.index_of_hex(device_hex).is_none() || layout::bounds_fit(displays)
            },
            _ => true,
        }
    }

    /// Takes in one message of a connected peer. `now` is the host's clock, in
    /// milliseconds, for measuring the round trip.
    pub fn on_client_msg(&mut self, device_hex: &str, msg: ClientMsg, now: u64) -> (r: Result<
        PeerStep,
        TransportError,
    >)
        requires
            old(self).wf(),
            old(self).can_take_in(device_hex@, msg),
        ensures
            final(self).wf(),
            final(self).same_but_devices_and_peers(*old(self)),
            match msg {
                ClientMsg::DisplaysChanged { displays } => {
                    let before = old(self).wall.devices@;
                    let after = final(self).wall.devices@;
                    let at = layout::hex_from(before, 0, device_hex@);
                    &&& r matches Ok(PeerStep::Continue(actions)) && acts(actions@) == seq![
                        Act::MarkDirty,
                    ]
                    &&& after.len() == before.len()
                    &&& at is Some ==> layout::is_redisplayed(after[at->0], before[at->0], displays@)
                    &&& forall|i: int|
                        0 <= i < before.len() && at != Some(i) ==> #[trigger] after[i] == before[i]
                    &&& final(self).peers@ == if old(self).peers@.contains_key(device_hex@) {
                        let peer = old(self).peers@[device_hex@];
                        old(self).peers@.insert(
                            device_hex@,
                            (Peer { info: DeviceInfo { displays, ..peer.info }, ..peer }),
                        )
                    } else {
                        old(self).peers@
                    }
                },
                ClientMsg::Clipboard(clip) => {
                    &&& *final(self) == *old(self)
                    &&& r matches Ok(PeerStep::Continue(actions)) && actions@.len() == 1
                        && (actions@[0]@ matches Act::Share { clip: shared, apply, peers } && {
                        &&& shared == clip
                        &&& apply == old(self).clipboard
                        &&& old(self).is_everyone_but(peers, Some(device_hex@))
                    })
                },
                ClientMsg::Pong { stamp } => {
                    &&& r matches Ok(PeerStep::Continue(actions)) && acts(actions@) == seq![
                        Act::MarkDirty,
                    ]
                    &&& final(self).wall == old(self).wall
                    &&& final(self).peers@ == if old(self).peers@.contains_key(device_hex@) {
                        let peer = old(self).peers@[device_hex@];
                        old(self).peers@.insert(
                            device_hex@,
                            (Peer { latency_ms: Some(latency(now, stamp)), ..peer }),
                        )
                    } else {
                        old(self).peers@
                    }
                },
                // Only legal once, during the handshake.
                ClientMsg::Hello { .. } => {
                    &&& *final(self) == *old(self)
                    &&& r is Err && r->Err_0 is Handshake
                },
                ClientMsg::Bye { .. } => {
                    &&& *final(self) == *old(self)
                    &&& r is Ok && r->Ok_0 is Done
                },
            },
    {
        match msg {
            ClientMsg::DisplaysChanged { displays } => {
                let ghost entries = self.peers.entries@;
                if let Some(idx) = self.wall.index_of_hex(device_hex) {
                    self.wall.set_displays(idx, protocol::copy_displays(&displays));
                }
                if let Some(i) = self.peers.find(device_hex) {
                    self.peers.entries[i].1.info.displays = displays;
                    proof {
                        table::map_of_update(entries, self.peers.entries@, i as int);
                    }
                }
                Ok(PeerStep::Continue(dirty()))
            },
            ClientMsg::Clipboard(clip) => {
                // Apply locally, then fan out to the other peers so every device
                // ends up with the same clipboard.
                let peers = self.everyone_but(Some(device_hex));
                let mut out: Vec<Action> = Vec::new();
                out.push(Action::Share { clip, apply: self.clipboard, peers });
                Ok(PeerStep::Continue(out))
            },
            ClientMsg::Pong { stamp } => {
                let ghost entries = self.peers.entries@;
                if let Some(i) = self.peers.find(device_hex) {
                    let rtt: u64 = now.saturating_sub(stamp);
                    let ms: u32 = if rtt > u32::MAX as u64 {
                        u32::MAX
                    } else {
                        rtt as u32
                    };
                    self.peers.entries[i].1.latency_ms = Some(ms);
                    proof {
                        table::map_of_update(entries, self.peers.entries@, i as int);
                    }
                }
                Ok(PeerStep::Continue(dirty()))
            },
            ClientMsg::Hello { .. } => Err(TransportError::Handshake),
            ClientMsg::Bye { .. } => Ok(PeerStep::Done),
        }
    }

    /// The latency probe for a peer, as long as it is connected.
    pub fn ping(&self, device_hex: &str, now: u64) -> (r: Option<HostMsg>)
        requires
            self.peers.wf(),
        ensures
            r == if self.peers@.contains_key(device_hex@) {
                Some(HostMsg::Ping { stamp: now })
            } else {
                None
            },
    {
        match self.peers.find(device_hex) {
            Some(_) => Some(HostMsg::Ping { stamp: now }),
            None => None,
        }
    }

    /// Looks at this machine's own monitors. Docking a laptop or unplugging a
    /// screen changes the wall, and a stale wall means the pointer crosses in
    /// the wrong place. While control is local the cursor, which may now be
    /// outside every monitor, is found again.
    pub fn on_displays(
        &mut self,
        last: &Vec<Display>,
        current: Vec<Display>,
        cursor: Option<(i32, i32)>,
    ) -> (r: Vec<Action>)
        requires
            old(self).wf(),
            layout::bounds_area(current@).fits(),
            cursor matches Some((x, y)) ==> old(self).wall.can_sync(x as int, y as int),
        ensures
            final(self).wf(),
            protocol::same_displays(current@, last@) ==> *final(self) == *old(self) && r@.len()
                == 0,
            !protocol::same_displays(current@, last@) ==> {
                let before = old(self).wall.devices@;
                let after = final(self).wall.devices@;
                &&& acts(r@) == seq![Act::MarkDirty]
                &&& final(self).peers == old(self).peers
                &&& final(self).settings == old(self).settings
                &&& final(self).accepting == old(self).accepting
                &&& final(self).clipboard == old(self).clipboard
                &&& final(self).held == old(self).held
                &&& final(self).next_session == old(self).next_session
                &&& final(self).stopping == old(self).stopping
                &&& final(self).wall.owner == old(self).wall.owner
                &&& final(self).wall.locked == old(self).wall.locked
                &&& final(self).wall.cursor == match cursor {
                    Some((x, y)) => old(self).wall.synced(x as int, y as int).cursor,
                    None => old(self).wall.cursor,
                }
                &&& after.len() == before.len()
                &&& layout::is_redisplayed(after[0], before[0], current@)
                &&& forall|i: int| 1 <= i < before.len() ==> #[trigger] after[i] == before[i]
            },
    {
        if protocol::displays_match(&current, last) {
            return Vec::new();
        }
        self.wall.set_displays(0, current);
        // The cursor may now be outside every monitor.
        if self.wall.is_local() {
            if let Some((x, y)) = cursor {
                self.wall.sync_local(x, y);
            }
        }
        dirty()
    }

    /// Fans a local clipboard change out to every peer.
    pub fn on_local_clip(&self, clip: Clip) -> (r: Action)
        requires
            self.peers.wf(),
        ensures
            r@ matches Act::Share { clip: shared, apply, peers } && {
                &&& shared == clip
                &&& !apply
                &&& self.is_everyone_but(peers, None)
            },
    {
        Action::Share { clip, apply: false, peers: self.everyone_but(None) }
    }

    /// Shuts down. The pointer is handed back before anything else unwinds, or
    /// the local machine is left with its input suppressed and no way to fix
    /// it; then everybody hears goodbye.
    pub fn stop(&mut self) -> (r: Vec<Action>)
        requires
            old(self).wf(),
        ensures
            final(self).wf(),
            *final(self) == (HostState { stopping: true, ..*old(self) }),
            r@.len() == 2,
            r@[0]@ == (Act::Suppress { on: false }),
            r@[1]@ matches Act::Broadcast { peers, msg } && old(self).is_everyone_but(peers, None)
                && (msg matches HostMsg::Bye { reason } && reason@ == "host stopped"@),
    {
        self.stopping = true;
        let mut out: Vec<Action> = Vec::new();
        out.push(Action::Suppress { on: false });
        out.push(
            Action::Broadcast {
                peers: self.everyone_but(None),
                msg: HostMsg::Bye { reason: "host stopped".to_owned() },
            },
        );
        out
    }
}

/// The long-term key to issue to a client, given what chance drew. On first
/// contact it is what was drawn, so the code is only typed once. A returning
/// client has one already.
pub fn key_given(mode: AuthMode, drawn: Result<Secret, RandomError>) -> (r: Result<
    Option<Secret>,
    RandomError,
>)
    ensures
        r == match mode {
            AuthMode::Stored => Ok::<Option<Secret>, RandomError>(None),
            AuthMode::Code => match drawn {
                Ok(key) => Ok(Some(key)),
                Err(e) => Err(e),
            },
        },
{
    match mode {
        AuthMode::Stored => Ok(None),
        AuthMode::Code => match drawn {
            Ok(key) => Ok(Some(key)),
            Err(e) => Err(e),
        },
    }
}

/// The long-term key to issue to a client, freshly drawn where it needs one.
/// Which key that is, and whether one could be drawn, is left to chance; what
/// becomes of it is [`key_given`]'s to say.
pub fn mint_key(mode: AuthMode) -> (r: Result<Option<Secret>, RandomError>)
    ensures
        mode == AuthMode::Stored ==> r == Ok::<Option<Secret>, RandomError>(None),
        mode == AuthMode::Code && r is Ok ==> r->Ok_0 is Some,
{
    match mode {
        AuthMode::Stored => Ok(None),
        AuthMode::Code => key_given(mode, crypto::random_bytes::<32>()),
    }
}

/// Whether a peer's queue ends with this message: nothing follows a goodbye.
pub fn closes_queue(msg: &HostMsg) -> (r: bool)
    ensures
        r == (*msg is Bye),
{
    match msg {
        HostMsg::Bye { .. } => true,
        _ => false,
    }
}

/// Adds a list of actions to another.
pub fn append(out: &mut Vec<Action>, more: Vec<Action>)
    ensures
        acts(final(out)@) == acts(old(out)@) + acts(more@),
{
    let ghost start = out@;
    let mut more = more;
    let ghost added = more@;
    out.append(&mut more);
    assert(acts(out@) =~= acts(start) + acts(added));
}

fn dirty() -> (r: Vec<Action>)
    ensures
        acts(r@) == seq![Act::MarkDirty],
{
    let mut out: Vec<Action> = Vec::new();
    emit(&mut out, Action::MarkDirty);
    assert(acts(out@) =~= seq![Act::MarkDirty]);
    out
}

/// Local input is suppressed exactly while the pointer is away: whatever motion
/// does, what was true of suppression before is true after.
pub proof fn suppression_follows_motion(state: HostState, dx: int, dy: int)
    requires
        state.wf(),
        state.wall.can_move(dx, dy),
    ensures
        suppressed_after(state.wall.owner != 0, state.motion_acts(dx, dy)) == (state.wall.moved(
            dx,
            dy,
        ).owner != 0),
{
    reveal_with_fuel(suppressed_after, 6);
    layout::switch_means_crossing(state.wall, dx, dy);
    assert(state.wall.devices@.len() == state.wall.devices.len());
    let devices = state.wall.devices@;
    let after = state.wall.moved(dx, dy).owner as int;
    if after != 0 {
        assert(devices[0].id@ != devices[after].id@);
        if protocol::hex_of(devices[after].id@) == protocol::hex_of(devices[0].id@) {
            protocol::hex_injective(devices[after].id, devices[0].id);
        }
    }
    let list = state.motion_acts(dx, dy);
    match state.wall.motion(dx, dy) {
        Motion::Local { .. } => {},
        Motion::Remote { .. } => {
            if list.len() > 0 {
                assert(list.drop_last() =~= seq![]);
            }
        },
        Motion::Switch { x, y, .. } => {
            let short = list.drop_last();
            assert(list.last() == Act::MarkDirty);
            if after == 0 {
                assert(short.last() == (Act::Suppress { on: false }));
            } else {
                let to = protocol::hex_of(devices[after].id@);
                if state.peers@.contains_key(to) {
                    assert(short.last() == (Act::Send { to, msg: HostMsg::Enter { x, y } }));
                    assert(short.drop_last().last() == (Act::Suppress { on: true }));
                } else {
                    assert(short.last() == (Act::Suppress { on: true }));
                }
            }
        },
    }
}

/// The same of taking the pointer back: afterwards local input is not
/// suppressed, and the pointer is on this machine.
pub proof fn suppression_ends_with_recall(state: HostState)
    requires
        state.wf(),
    ensures
        !suppressed_after(state.wall.owner != 0, state.reclaim_acts()),
        state.reclaimed().wall.owner == 0,
{
    reveal_with_fuel(suppressed_after, 3);
    let list = state.reclaim_acts();
    if state.wall.owner != 0 {
        assert(list.last() == Act::MarkDirty);
        assert(list.drop_last().last() == (Act::Suppress { on: false }));
    }
}

/// Whatever is captured, suppression and the pointer stay in step.
pub proof fn suppression_follows_the_pointer(state: HostState, event: CaptureEvent)
    requires
        state.wf(),
        state.can_follow(event),
    ensures
        suppressed_after(state.wall.owner != 0, state.follow_acts(event)) == (state.followed(
            event,
        ).wall.owner != 0),
{
    reveal_with_fuel(suppressed_after, 2);
    match event {
        CaptureEvent::Motion { dx, dy } => {
            suppression_follows_motion(state, dx as int, dy as int);
        },
        CaptureEvent::Escape => {
            suppression_ends_with_recall(state);
        },
        _ => {
            let list = state.follow_acts(event);
            if list.len() > 0 {
                assert(list.drop_last() =~= seq![]);
            }
        },
    }
}

/// A crossing is orderly. A connected device that loses the pointer lets go of
/// everything and then hears that control has left, before anything else
/// happens. On the way out local input is swallowed before the new device hears
/// of the pointer; on the way home the cursor is put in place before local input
/// comes back.
pub proof fn crossing_is_orderly(state: HostState, dx: int, dy: int)
    requires
        state.wf(),
        state.wall.can_move(dx, dy),
        state.wall.motion(dx, dy) is Switch,
    ensures
        ({
            let list = state.motion_acts(dx, dy);
            let from = state.owner_hex();
            let to = protocol::hex_of(
                state.wall.devices@[state.wall.moved(dx, dy).owner as int].id@,
            );
            let n: int = if state.wall.owner != 0 && state.peers@.contains_key(from) {
                2
            } else {
                0
            };
            &&& n == 2 ==> list[0] == (Act::Send {
                to: from,
                msg: HostMsg::Input(InputEvent::ReleaseAll),
            }) && list[1] == (Act::Send { to: from, msg: HostMsg::Leave })
            &&& state.wall.moved(dx, dy).owner == 0 ==> {
                &&& list[n] is Warp
                &&& list[n + 1] == (Act::Suppress { on: false })
            }
            &&& state.wall.moved(dx, dy).owner != 0 ==> {
                &&& list[n] == (Act::Suppress { on: true })
                &&& state.peers@.contains_key(to) ==> (list[n + 1] matches Act::Send {
                    to: who,
                    msg: HostMsg::Enter { .. },
                } && who == to)
            }
            &&& list.last() == Act::MarkDirty
        }),
{
    layout::switch_means_crossing(state.wall, dx, dy);
    assert(state.wall.devices@.len() == state.wall.devices.len());
    let devices = state.wall.devices@;
    let before = state.wall.owner as int;
    let after = state.wall.moved(dx, dy).owner as int;
    if before != 0 {
        assert(devices[0].id@ != devices[before].id@);
        if protocol::hex_of(devices[before].id@) == protocol::hex_of(devices[0].id@) {
            protocol::hex_injective(devices[before].id, devices[0].id);
        }
    }
    if after != 0 {
        assert(devices[0].id@ != devices[after].id@);
        if protocol::hex_of(devices[after].id@) == protocol::hex_of(devices[0].id@) {
            protocol::hex_injective(devices[after].id, devices[0].id);
        }
    }
}

/// The hotkey works from anywhere: as long as this machine has a monitor to put
/// the pointer on, it can be taken back, wherever it is and whatever is held.
pub proof fn the_way_home_is_open(state: HostState)
    requires
        state.wf(),
        layout::lone_device_placed(state.wall.devices@[0].displays@),
    ensures
        state.can_follow(CaptureEvent::Escape),
        state.followed(CaptureEvent::Escape).wall.owner == 0,
        !state.followed(CaptureEvent::Escape).wall.locked,
        state.followed(CaptureEvent::Escape).held == 0,
{
    let host = state.wall.devices@[0];
    layout::lone_device_is_placed(host);
    let px = state.wall.cursor.0 as int;
    let py = state.wall.cursor.1 as int;
    if host.displays@.len() > 0 {
        layout::nearest_is_first_minimum(host.wall_areas(), px, py);
        assert(host.wall_areas()[layout::nearest(host.wall_areas(), px, py)].edges_fit());
    }
}

/// A drag is never torn in half: while a button is down, captured motion leaves
/// the pointer on the machine it is on.
pub proof fn drag_stays_on_one_machine(state: HostState, button: protocol::Button, dx: int, dy: int)
    requires
        state.wf(),
    ensures
        ({
            let pressed = state.followed(CaptureEvent::Button { button, down: true });
            pressed.wall.moved(dx, dy).owner == state.wall.owner
        }),
{
}

/// A device that left cannot be crossed onto: its monitors are no longer under
/// any position of the wall.
pub proof fn gone_device_is_not_crossed_onto(
    devices: Seq<Device>,
    device_hex: Seq<char>,
    px: int,
    py: int,
)
    requires
        devices.len() > 0,
        protocol::hex_of(devices[0].id@) != device_hex,
        forall|i: int, j: int|
            0 <= i < j < devices.len() ==> (#[trigger] devices[i]).id@ != (
            #[trigger] devices[j]).id@,
    ensures
        ({
            let hit = layout::first_covering(HostState::with_gone(devices, device_hex), 0, px, py);
            hit is Some ==> protocol::hex_of(devices[hit->0].id@) != device_hex
        }),
{
    let after = HostState::with_gone(devices, device_hex);
    layout::hex_from_is_first(devices, 0, device_hex);
    layout::first_covering_is_first(after, 0, px, py);
    let hit = layout::first_covering(after, 0, px, py);
    if hit is Some && protocol::hex_of(devices[hit->0].id@) == device_hex {
        let i = layout::hex_from(devices, 0, device_hex)->0;
        if i != hit->0 {
            protocol::hex_injective(devices[i].id, devices[hit->0].id);
        }
    }
}

proof fn push_contains(s: Seq<Seq<char>>, x: Seq<char>, k: Seq<char>)
    ensures
        s.push(x).contains(k) <==> s.contains(k) || k == x,
{
    if s.contains(k) {
        let j = choose|j: int| 0 <= j < s.len() && s[j] == k;
        assert(s.push(x)[j] == k);
    }
    if k == x {
        assert(s.push(x)[s.len() as int] == k);
    }
    if s.push(x).contains(k) {
        let j = choose|j: int| 0 <= j < s.push(x).len() && s.push(x)[j] == k;
        if j < s.len() {
            assert(s[j] == k);
        }
    }
}

/// A goodbye to one peer.
pub open spec fn is_goodbye(act: Act, to: Seq<char>, reason: Seq<char>) -> bool {
    act matches Act::Send { to: who, msg } && who == to && (msg matches HostMsg::Bye { reason: why }
        && why@ == reason)
}

} // verus!
