//! Client role: connect to a host and replay whatever it sends.
//!
//! The client is deliberately the simple half. It does no layout maths and
//! keeps no model of the wall: coordinates arrive already translated into this
//! machine's own pixels, so the hot path is "decode a frame, hand it to the OS".
//!
//! As on the host, events go in and a list of things to do comes out.

use vstd::prelude::*;

use crate::crypto;
use crate::crypto::Secret;
use crate::protocol;
use crate::protocol::{Clip, ClientMsg, DeviceInfo, Display, HostMsg, InputEvent};
use crate::settings::Settings;
use crate::text;
use crate::transport::{AuthMode, TransportError};

pub mod laws;

verus! {

/// Reconnect backoff, in milliseconds. Starts fast because the usual cause is
/// the host app restarting, and settles low enough to be free while a laptop is
/// asleep.
pub const RETRY_MIN: u64 = 500;

pub const RETRY_MAX: u64 = 5000;

/// Where and how to connect.
#[derive(Debug)]
pub struct Target {
    pub address: String,
    pub port: u16,
    /// Hex host id from discovery, when known. Having it lets an already paired
    /// device reconnect without the code being typed again.
    pub host_id: Option<String>,
    /// The code the user typed, kept for the life of the session so a reconnect
    /// after the host restarts does not prompt again.
    pub code: Option<String>,
}

impl Target {
    /// `address:port`.
    pub open spec fn text(&self) -> Seq<char> {
        self.address@ + seq![':'] + text::decimal(self.port as nat)
    }

    /// `address:port`.
    pub fn endpoint(&self) -> (r: String)
        ensures
            r@ == self.text(),
    {
        let mut r = self.address.clone();
        r.push(':');
        text::push_decimal(&mut r, self.port as u64);
        assert(r@ =~= self.text());
        r
    }
}

/// What the UI shows about the connection.
#[derive(Debug)]
pub struct Status {
    pub connected: bool,
    pub host_id: String,
    pub host_name: String,
    pub host_os: String,
    pub address: String,
    /// Set while the host has the pointer on this device.
    pub controlled: bool,
    /// Latest error, or empty while things are fine.
    pub message: String,
    pub attempts: u32,
}

/// Something for the program to do.
#[derive(Debug)]
pub enum Action {
    /// Hand an event to the input thread. Where `required` says so, a thread
    /// that is gone ends the session.
    Inject { event: InputEvent, required: bool },
    /// Queue a message for the host.
    Send { msg: ClientMsg },
    /// Put this on the local clipboard.
    Apply { clip: Clip },
    /// The UI is stale.
    MarkDirty,
    /// Write the settings to disk.
    SaveSettings,
}

/// What the client does after reading one message of the host.
#[derive(Debug)]
pub enum HostStep {
    /// Do these things and read on.
    Continue(Vec<Action>),
    /// The host said goodbye.
    Done,
}

/// Everything the client tasks share.
#[derive(Debug)]
pub struct ClientState {
    pub status: Status,
    pub settings: Settings,
    /// Set while this machine's own clipboard is shared.
    pub clipboard: bool,
    /// Set while there is a connection to send on.
    pub online: bool,
    pub stopping: bool,
    /// How long to wait before the next attempt, in milliseconds.
    pub backoff: u64,
}

/// The secrets to try, in order.
pub open spec fn credentials_for(settings: Settings, target: Target) -> Seq<(AuthMode, Seq<u8>)> {
    let stored = match target.host_id {
        Some(id) => if settings.paired_hosts@.contains_key(id@) {
            seq![(AuthMode::Stored, settings.paired_hosts@[id@]@)]
        } else {
            seq![]
        },
        None => seq![],
    };
    let typed = match target.code {
        Some(code) => if text::trimmed(code@).len() > 0 {
            seq![(AuthMode::Code, crypto::code_secret(code@))]
        } else {
            seq![]
        },
        None => seq![],
    };
    stored + typed
}

/// The model of a list of credentials.
pub open spec fn bare(list: Seq<(AuthMode, Secret)>) -> Seq<(AuthMode, Seq<u8>)> {
    list.map_values(|c: (AuthMode, Secret)| (c.0, c.1@))
}

/// What to do next in an attempt to connect.
#[derive(Debug)]
pub enum Attempt {
    /// Try the credential at this index.
    Try(usize),
    /// Every credential has been tried; this is what to report.
    GiveUp(TransportError),
}

/// Decides how an attempt goes on after the first `tried` of `count` credentials
/// failed, the latest with `last`. A wrong key falls through to the next
/// credential rather than failing outright, so a host that was re-paired still
/// works; with nothing to try the device is simply not known there.
pub fn next_attempt(count: usize, tried: usize, last: Option<TransportError>) -> (r: Attempt)
    ensures
        r == if tried < count {
            Attempt::Try(tried)
        } else {
            match last {
                Some(e) => Attempt::GiveUp(e),
                None => Attempt::GiveUp(TransportError::Rejected),
            }
        },
{
    if tried < count {
        Attempt::Try(tried)
    } else {
        match last {
            Some(e) => Attempt::GiveUp(e),
            None => Attempt::GiveUp(TransportError::Rejected),
        }
    }
}

/// Whether the queue to the host ends with this message: nothing follows a
/// goodbye.
pub fn closes_queue(msg: &ClientMsg) -> (r: bool)
    ensures
        r == (*msg is Bye),
{
    match msg {
        ClientMsg::Bye { .. } => true,
        _ => false,
    }
}

/// A connection that did not come about, or went silent, in these words.
pub fn timed_out(what: &str) -> (r: TransportError)
    ensures
        r matches TransportError::Io(words) && words@ == what@,
{
    TransportError::Io(what.to_owned())
}

/// The wait after a session, given whether it ever connected. A connection that
/// actually worked resets the backoff, so a host that restarts is picked up in
/// half a second however long the session lasted.
pub open spec fn next_backoff(backoff: u64, connected: bool) -> u64 {
    if connected {
        RETRY_MIN
    } else if 2 * backoff > RETRY_MAX {
        RETRY_MAX
    } else {
        (2 * backoff) as u64
    }
}

/// The wait never leaves its range, and never shrinks while nothing connects.
pub proof fn backoff_stays_in_range(backoff: u64, connected: bool)
    requires
        RETRY_MIN <= backoff <= RETRY_MAX,
    ensures
        RETRY_MIN <= next_backoff(backoff, connected) <= RETRY_MAX,
        !connected ==> next_backoff(backoff, connected) >= backoff,
        connected ==> next_backoff(backoff, connected) == RETRY_MIN,
{
}

impl ClientState {
    /// The host can only have its pointer here while it is connected, and the
    /// wait between attempts stays in its range.
    pub open spec fn wf(&self) -> bool {
        &&& self.settings.wf()
        &&& self.status.controlled ==> self.status.connected
        &&& RETRY_MIN <= self.backoff <= RETRY_MAX
    }

    /// Starts out disconnected.
    pub fn new(settings: Settings, target: &Target) -> (r: Self)
        requires
            settings.wf(),
        ensures
            r.wf(),
            r.settings == settings,
            r.clipboard == settings.clipboard_sync,
            !r.online,
            !r.stopping,
            r.backoff == RETRY_MIN,
            !r.status.connected,
            !r.status.controlled,
            r.status.address@ == target.text(),
            r.status.host_id@ == Seq::<char>::empty(),
            r.status.host_name@ == Seq::<char>::empty(),
            r.status.host_os@ == Seq::<char>::empty(),
            r.status.message@ == Seq::<char>::empty(),
            r.status.attempts == 0,
    {
        let clipboard = settings.clipboard_sync;
        ClientState {
            status: Status {
                connected: false,
                host_id: String::new(),
                host_name: String::new(),
                host_os: String::new(),
                address: target.endpoint(),
                controlled: false,
                message: String::new(),
                attempts: 0,
            },
            settings,
            clipboard,
            online: false,
            stopping: false,
            backoff: RETRY_MIN,
        }
    }

    /// The secrets to try, in order. A stored key comes first so a paired device
    /// reconnects without a prompt; the typed code is kept as a fallback for a
    /// host that has forgotten us (its settings were reset, or the pairing was
    /// revoked).
    pub fn credentials(&self, target: &Target) -> (r: Vec<(AuthMode, Secret)>)
        requires
            self.settings.wf(),
        ensures
            bare(r@) == credentials_for(self.settings, *target),
    {
        let mut out: Vec<(AuthMode, Secret)> = Vec::new();
        if let Some(host_id) = &target.host_id {
            if let Some(key) = self.settings.paired_hosts.get(host_id.as_str()) {
                out.push((AuthMode::Stored, *key));
            }
        }
        if let Some(code) = &target.code {
            let trimmed = text::trim(code.as_str());
            if text::has_text(trimmed.as_str()) {
                out.push((AuthMode::Code, crypto::secret_from_code(code.as_str())));
            }
        }
        assert(bare(out@) =~= credentials_for(self.settings, *target));
        out
    }

    /// Queues a message for the host. Silently dropped while disconnected:
    /// there is nothing useful to do with a clipboard change nobody can hear.
    pub fn send(&self, msg: ClientMsg) -> (r: Vec<Action>)
        ensures
            r@ == if self.online {
                seq![Action::Send { msg }]
            } else {
                Seq::<Action>::empty()
            },
    {
        let mut out: Vec<Action> = Vec::new();
        if self.online {
            out.push(Action::Send { msg });
        }
        assert(out@ =~= if self.online {
            seq![Action::Send { msg }]
        } else {
            Seq::<Action>::empty()
        });
        out
    }

    /// The status after something went wrong.
    pub open spec fn failed(status: Status, message: String) -> Status {
        Status {
            connected: false,
            controlled: false,
            message,
            attempts: if status.attempts == u32::MAX {
                u32::MAX
            } else {
                (status.attempts + 1) as u32
            },
            ..status
        }
    }

    pub fn set_error(&mut self, message: String) -> (r: Action)
        ensures
            *final(self) == (ClientState {
                status: ClientState::failed(old(self).status, message),
                ..*old(self)
            }),
            r == Action::MarkDirty,
            old(self).wf() ==> final(self).wf(),
    {
        self.status.connected = false;
        self.status.controlled = false;
        self.status.message = message;
        self.status.attempts = self.status.attempts.saturating_add(1);
        Action::MarkDirty
    }

    /// What this device says first.
    pub fn hello(&self, os: String, displays: Vec<Display>) -> (r: DeviceInfo)
        ensures
            r.id@ == crate::settings::id_or_zero(
                vstd::utf8::encode_utf8(self.settings.device_id@),
            ),
            r.name@ == self.settings.device_name@,
            r.os == os,
            r.displays == displays,
    {
        DeviceInfo {
            id: self.settings.id(),
            name: self.settings.device_name.clone(),
            os,
            displays,
        }
    }

    /// Takes in the host's first message: the connection is up. Gives whether
    /// the host wants clipboards shared.
    ///
    /// A freshly issued key means the code has done its job; it is stored so
    /// this device never has to be paired by hand again.
    pub fn on_welcome(&mut self, first: HostMsg, target: &Target) -> (r: Result<
        (bool, Vec<Action>),
        TransportError,
    >)
        requires
            old(self).wf(),
        ensures
            final(self).wf(),
            final(self).stopping == old(self).stopping,
            final(self).clipboard == old(self).clipboard,
            final(self).backoff == old(self).backoff,
            match first {
                HostMsg::Welcome { host, psk, clipboard_sync } => {
                    let status = final(self).status;
                    &&& r is Ok
                    &&& r->Ok_0.0 == clipboard_sync
                    &&& final(self).online
                    &&& status.connected
                    &&& !status.controlled
                    &&& status.message@.len() == 0
                    &&& status.attempts == 0
                    &&& status.host_id@ == protocol::hex_of(host.id@)
                    &&& status.host_name@ == host.name@
                    &&& status.host_os@ == host.os@
                    &&& status.address@ == target.text()
                    &&& final(self).settings == (Settings {
                        paired_hosts: final(self).settings.paired_hosts,
                        ..old(self).settings
                    })
                    &&& match psk {
                        Some(key) => {
                            &&& final(self).settings.paired_hosts@ == old(
                                self).settings.paired_hosts@.insert(
                                protocol::hex_of(host.id@),
                                key,
                            )
                            &&& r->Ok_0.1@ == seq![Action::SaveSettings, Action::MarkDirty]
                        },
                        None => {
                            &&& final(self).settings.paired_hosts == old(self).settings.paired_hosts
                            &&& r->Ok_0.1@ == seq![Action::MarkDirty]
                        },
                    }
                },
                // Welcome is the only legal first word from a host.
                _ => {
                    &&& r is Err
                    &&& r->Err_0 is Handshake
                    &&& *final(self) == *old(self)
                },
            },
    {
        match first {
            HostMsg::Welcome { host, psk, clipboard_sync } => {
                let mut out: Vec<Action> = Vec::new();
                let host_hex = protocol::id_to_hex(&host.id);
                if let Some(key) = psk {
                    self.settings.paired_hosts.insert(host_hex.clone(), key);
                    out.push(Action::SaveSettings);
                }
                self.status = Status {
                    connected: true,
                    controlled: false,
                    message: String::new(),
                    attempts: 0,
                    host_id: host_hex,
                    host_name: host.name,
                    host_os: host.os,
                    address: target.endpoint(),
                };
                self.online = true;
                out.push(Action::MarkDirty);
                proof {
                    if psk is Some {
                        assert(out@ =~= seq![Action::SaveSettings, Action::MarkDirty]);
                    } else {
                        assert(out@ =~= seq![Action::MarkDirty]);
                    }
                }
                Ok((clipboard_sync, out))
            },
            _ => Err(TransportError::Handshake),
        }
    }

    /// What one message of a connected host makes the client do.
    pub open spec fn replay(&self, msg: HostMsg, clipboard_sync: bool) -> Seq<Action> {
        match msg {
            HostMsg::Input(event) => seq![Action::Inject { event, required: true }],
            HostMsg::Enter { x, y } => seq![
                Action::Inject { event: InputEvent::MoveAbs { x, y }, required: false },
                Action::MarkDirty,
            ],
            HostMsg::Leave => seq![
                Action::Inject { event: InputEvent::ReleaseAll, required: false },
                Action::MarkDirty,
            ],
            HostMsg::Clipboard(clip) => if clipboard_sync && self.clipboard {
                seq![Action::Apply { clip }]
            } else {
                seq![]
            },
            HostMsg::Ping { stamp } => if self.online {
                seq![Action::Send { msg: ClientMsg::Pong { stamp } }]
            } else {
                seq![]
            },
            _ => seq![],
        }
    }

    /// Whether the pointer is here after one message of the host.
    pub open spec fn controlled_after(&self, msg: HostMsg) -> bool {
        match msg {
            HostMsg::Enter { .. } => true,
            HostMsg::Leave => false,
            _ => self.status.controlled,
        }
    }

    /// The hot path: takes in one message of the host and hands the payload
    /// straight on.
    pub fn on_host_msg(&mut self, msg: HostMsg, clipboard_sync: bool) -> (r: Result<
        HostStep,
        TransportError,
    >)
        ensures
            *final(self) == (ClientState {
                status: Status {
                    controlled: old(self).controlled_after(msg),
                    ..old(self).status
                },
                ..*old(self)
            }),
            match msg {
                HostMsg::Welcome { .. } => r is Err && r->Err_0 is Handshake,
                HostMsg::Bye { .. } => r is Ok && r->Ok_0 is Done,
                _ => r matches Ok(HostStep::Continue(actions)) && actions@ == old(self).replay(
                    msg,
                    clipboard_sync,
                ),
            },
            old(self).wf() && old(self).status.connected ==> final(self).wf(),
    {
        let ghost message = msg;
        let mut out: Vec<Action> = Vec::new();
        match msg {
            HostMsg::Input(event) => {
                out.push(Action::Inject { event, required: true });
            },
            HostMsg::Enter { x, y } => {
                // Put the pointer where the host says before anything else
                // arrives, so the first click lands in the right place.
                out.push(
                    Action::Inject { event: InputEvent::MoveAbs { x, y }, required: false },
                );
                self.status.controlled = true;
                out.push(Action::MarkDirty);
            },
            HostMsg::Leave => {
                out.push(Action::Inject { event: InputEvent::ReleaseAll, required: false });
                self.status.controlled = false;
                out.push(Action::MarkDirty);
            },
            HostMsg::Clipboard(clip) => {
                if clipboard_sync && self.clipboard {
                    out.push(Action::Apply { clip });
                }
            },
            HostMsg::Ping { stamp } => {
                out = self.send(ClientMsg::Pong { stamp });
            },
            HostMsg::Welcome { .. } => {
                return Err(TransportError::Handshake);
            },
            HostMsg::Bye { .. } => {
                return Ok(HostStep::Done);
            },
        }
        assert(out@ =~= old(self).replay(message, clipboard_sync));
        Ok(HostStep::Continue(out))
    }

    /// The live part of a session is over, whatever ended it.
    pub fn on_closed(&mut self) -> (r: Action)
        ensures
            *final(self) == (ClientState {
                online: false,
                status: Status { connected: false, controlled: false, ..old(self).status },
                ..*old(self)
            }),
            r == Action::MarkDirty,
            old(self).wf() ==> final(self).wf(),
    {
        self.online = false;
        self.status.connected = false;
        self.status.controlled = false;
        Action::MarkDirty
    }

    /// A session is over: says why, lets go of whatever the host left held, and
    /// gives how long to wait before the next one, unless the client is shutting
    /// down. A clean goodbye means the host is going away on purpose.
    pub fn on_session_end(&mut self, result: Result<(), TransportError>, connected: bool) -> (r: (
        Vec<Action>,
        Option<u64>,
    ))
        requires
            old(self).wf(),
        ensures
            final(self).wf(),
            ({
                let status = final(self).status;
                &&& status == ClientState::failed(old(self).status, status.message)
                &&& status.message@ == match result {
                    Ok(()) => "host disconnected"@,
                    Err(e) => e.text(),
                }
            }),
            !final(self).online,
            final(self).settings == old(self).settings,
            final(self).clipboard == old(self).clipboard,
            final(self).stopping == old(self).stopping,
            final(self).backoff == if old(self).stopping {
                old(self).backoff
            } else {
                next_backoff(old(self).backoff, connected)
            },
            r.0@ == seq![
                Action::MarkDirty,
                Action::Inject { event: InputEvent::ReleaseAll, required: false },
            ],
            r.1 == if old(self).stopping {
                None
            } else {
                Some(next_backoff(old(self).backoff, connected))
            },
    {
        let message = match result {
            Ok(()) => "host disconnected".to_owned(),
            Err(e) => e.message(),
        };
        let mut out: Vec<Action> = Vec::new();
        let dirty = self.set_error(message);
        out.push(dirty);
        // Whatever the host left held has to go, connection or not.
        out.push(Action::Inject { event: InputEvent::ReleaseAll, required: false });
        self.online = false;
        assert(out@ =~= seq![
            Action::MarkDirty,
            Action::Inject { event: InputEvent::ReleaseAll, required: false },
        ]);
        if self.stopping {
            return (out, None);
        }
        self.backoff = if connected {
            RETRY_MIN
        } else if 2 * self.backoff > RETRY_MAX {
            RETRY_MAX
        } else {
            2 * self.backoff
        };
        (out, Some(self.backoff))
    }

    /// Looks at this machine's own monitors and reports them when they changed,
    /// so the host's wall stays honest about where the edges are.
    pub fn on_displays(&self, last: &Vec<Display>, current: &Vec<Display>) -> (r: Vec<Action>)
        ensures
            if self.online && !protocol::same_displays(current@, last@) {
                r@.len() == 1 && (r@[0] matches Action::Send { msg } && (
                msg matches ClientMsg::DisplaysChanged { displays } && displays@ == current@))
            } else {
                r@.len() == 0
            },
    {
        if protocol::displays_match(current, last) {
            return Vec::new();
        }
        self.send(ClientMsg::DisplaysChanged { displays: protocol::copy_displays(current) })
    }

    /// Shuts down. Anything the host left held is let go of before the socket
    /// dies, or this machine is stuck with a key down and nothing to release it.
    pub fn stop(&mut self) -> (r: Vec<Action>)
        ensures
            *final(self) == (ClientState { stopping: true, ..*old(self) }),
            r@.len() == if old(self).online {
                2int
            } else {
                1int
            },
            r@[0] == (Action::Inject { event: InputEvent::ReleaseAll, required: false }),
            old(self).online ==> (r@[1] matches Action::Send { msg } && (
            msg matches ClientMsg::Bye { reason } && reason@ == "client stopped"@)),
    {
        let mut out: Vec<Action> = Vec::new();
        out.push(Action::Inject { event: InputEvent::ReleaseAll, required: false });
        if self.online {
            out.push(Action::Send { msg: ClientMsg::Bye { reason: "client stopped".to_owned() } });
        }
        self.stopping = true;
        out
    }
}

} // verus!
