//! Persisted settings: identity, paired keys, and the wall layout.
//!
//! Written as JSON next to the OS's usual per-user config location. It is a
//! small file touched a handful of times per session, so it is saved
//! synchronously and read once at start-up.
//!
//! The stored pre-shared keys are what let a device reconnect without the
//! pairing code being retyped, so this file is as sensitive as a password store
//! and is created with owner-only permissions where the platform allows it.

use vstd::prelude::*;
use vstd::string::StringSliceAdditionalSpecFns;

use crate::crypto;
use crate::crypto::RandomError;
use crate::platform::Os;
use crate::protocol;
use crate::protocol::DeviceId;
use crate::table::Table;
use crate::text;

pub mod laws;

verus! {

#[derive(Debug)]
pub struct Settings {
    /// This machine's stable identity, hex encoded.
    pub device_id: String,
    /// Name shown to peers; defaults to the hostname.
    pub device_name: String,
    /// The code a client has to type to pair with us. Regenerating it does not
    /// disturb devices that have already paired.
    pub pairing_code: String,
    pub clipboard_sync: bool,
    /// Clipboard images are off by default: a screenshot is orders of magnitude
    /// larger than text and this app is about latency.
    pub clipboard_images: bool,
    /// Keys handed to us by hosts we have paired with, keyed by host id.
    pub paired_hosts: Table<[u8; 32]>,
    /// Keys we issued to clients, keyed by client id.
    pub paired_clients: Table<[u8; 32]>,
    /// Where each remote device sits on the wall, keyed by device id.
    pub layout: Table<(i32, i32)>,
}

/// Settings as they start out: text sharing on, images off, nobody paired and
/// nothing placed.
pub open spec fn is_fresh(s: Settings, id: Seq<u8>, name: Seq<char>, code: Seq<char>) -> bool {
    &&& s.wf()
    &&& s.device_id@ == protocol::hex_of(id)
    &&& s.device_name@ == name
    &&& s.pairing_code@ == code
    &&& s.clipboard_sync
    &&& !s.clipboard_images
    &&& s.paired_hosts@ == Map::<Seq<char>, [u8; 32]>::empty()
    &&& s.paired_clients@ == Map::<Seq<char>, [u8; 32]>::empty()
    &&& s.layout@ == Map::<Seq<char>, (i32, i32)>::empty()
}

/// The id that a piece of text stands for, with a placeholder for text that is
/// not one.
pub open spec fn id_or_zero(bytes: Seq<u8>) -> Seq<u8> {
    if bytes.len() == 32 && protocol::all_hex(bytes) {
        protocol::unhex(bytes)
    } else {
        Seq::new(16, |i: int| 0u8)
    }
}

impl Settings {
    /// No table holds a key twice.
    pub open spec fn wf(&self) -> bool {
        self.paired_hosts.wf() && self.paired_clients.wf() && self.layout.wf()
    }

    /// Fresh settings with a given identity and code.
    pub fn fresh(id: &DeviceId, device_name: String, pairing_code: String) -> (r: Self)
        ensures
            is_fresh(r, id@, device_name@, pairing_code@),
    {
        Settings {
            device_id: protocol::id_to_hex(id),
            device_name,
            pairing_code,
            clipboard_sync: true,
            clipboard_images: false,
            paired_hosts: Table::new(),
            paired_clients: Table::new(),
            layout: Table::new(),
        }
    }

    /// Fresh settings from what came of asking for an identity and for a code:
    /// there are some exactly when there were both.
    pub fn given(
        id: Result<DeviceId, RandomError>,
        device_name: String,
        code: Result<String, RandomError>,
    ) -> (r: Result<Self, RandomError>)
        ensures
            match (id, code) {
                (Ok(id), Ok(code)) => r is Ok && is_fresh(r->Ok_0, id@, device_name@, code@),
                _ => r is Err,
            },
    {
        match (id, code) {
            (Ok(id), Ok(code)) => Ok(Settings::fresh(&id, device_name, code)),
            _ => Err(RandomError),
        }
    }

    /// Fresh settings with a random identity and code, or an error where the
    /// system has no randomness to give. Which they are is left to chance.
    pub fn generate(device_name: String) -> (r: Result<Self, RandomError>)
        ensures
            r is Ok ==> exists|id: DeviceId, code: Seq<char>|
                #![trigger id@, crypto::is_pairing_code(code)]
                crypto::is_pairing_code(code) && is_fresh(r->Ok_0, id@, device_name@, code),
    {
        let id = crypto::random_bytes::<16>();
        let code = crypto::random_pairing_code();
        proof {
            if id is Ok && code is Ok {
                assert(crypto::is_pairing_code(code->Ok_0@));
            }
        }
        Settings::given(id, device_name, code)
    }

    /// Decides what to do at start-up, given whether there is a place to keep
    /// settings and what could be read from it. A settings file that cannot be
    /// parsed is more likely a half-written file than a real problem; starting
    /// fresh beats refusing to launch. Without a place to keep settings there is
    /// nothing to write.
    pub fn load(has_path: bool, parsed: Option<Settings>) -> (r: Loaded)
        ensures
            r == match parsed {
                Some(settings) if has_path => Loaded::Keep(settings),
                _ => Loaded::StartFresh { save: has_path },
            },
    {
        if !has_path {
            return Loaded::StartFresh { save: false };
        }
        match parsed {
            Some(settings) => Loaded::Keep(settings),
            None => Loaded::StartFresh { save: true },
        }
    }

    /// This machine's identity. Text that is not an id reads as all zeros.
    pub fn id(&self) -> (r: DeviceId)
        ensures
            r@ == id_or_zero(vstd::utf8::encode_utf8(self.device_id@)),
    {
        match protocol::id_from_hex(self.device_id.as_str()) {
            Some(id) => id,
            None => {
                let zero: DeviceId = [0u8; 16];
                assert(zero@ =~= Seq::new(16, |i: int| 0u8));
                zero
            },
        }
    }
}

/// The same settings, field by field.
pub open spec fn same_settings(a: Settings, b: Settings) -> bool {
    &&& a.device_id@ == b.device_id@
    &&& a.device_name@ == b.device_name@
    &&& a.pairing_code@ == b.pairing_code@
    &&& a.clipboard_sync == b.clipboard_sync
    &&& a.clipboard_images == b.clipboard_images
    &&& a.paired_hosts@ == b.paired_hosts@
    &&& a.paired_clients@ == b.paired_clients@
    &&& a.layout@ == b.layout@
}

impl Settings {
    /// A copy for a role to work on, or for the idle state to keep.
    pub fn copy(&self) -> (r: Self)
        ensures
            same_settings(r, *self),
            self.wf() ==> r.wf(),
    {
        Settings {
            device_id: self.device_id.clone(),
            device_name: self.device_name.clone(),
            pairing_code: self.pairing_code.clone(),
            clipboard_sync: self.clipboard_sync,
            clipboard_images: self.clipboard_images,
            paired_hosts: self.paired_hosts.copy(),
            paired_clients: self.paired_clients.copy(),
            layout: self.layout.copy(),
        }
    }
}

/// Fresh settings know their own identity.
pub proof fn fresh_settings_keep_their_id(id: DeviceId)
    ensures
        id_or_zero(vstd::utf8::encode_utf8(protocol::hex_of(id@))) == id@,
{
    protocol::hex_round_trip(id);
}

/// What to do with the settings file at start-up.
#[derive(Debug)]
pub enum Loaded {
    /// The file was fine.
    Keep(Settings),
    /// Start over, and write the result where `save` says so.
    StartFresh { save: bool },
}

/// The environment variable that the settings directory hangs off.
#[derive(Clone, Copy, Debug, PartialEq, Eq, Structural)]
pub enum ConfigBase {
    /// `%APPDATA%`.
    AppData,
    /// `$HOME/Library/Application Support`.
    HomeLibrary,
    /// `$XDG_CONFIG_HOME`.
    XdgConfig,
    /// `$HOME/.config`.
    HomeConfig,
}

/// Where settings live, given which variables are set.
pub fn config_base(os: Os, app_data: bool, xdg: bool, home: bool) -> (r: Option<ConfigBase>)
    ensures
        r == match os {
            Os::Windows => if app_data {
                Some(ConfigBase::AppData)
            } else {
                None
            },
            Os::MacOs => if home {
                Some(ConfigBase::HomeLibrary)
            } else {
                None
            },
            Os::Other => if xdg {
                Some(ConfigBase::XdgConfig)
            } else if home {
                Some(ConfigBase::HomeConfig)
            } else {
                None
            },
        },
{
    match os {
        Os::Windows => if app_data {
            Some(ConfigBase::AppData)
        } else {
            None
        },
        Os::MacOs => if home {
            Some(ConfigBase::HomeLibrary)
        } else {
            None
        },
        Os::Other => if xdg {
            Some(ConfigBase::XdgConfig)
        } else if home {
            Some(ConfigBase::HomeConfig)
        } else {
            None
        },
    }
}

/// The first candidate that is more than white space, without the white space
/// around it.
pub open spec fn first_name(candidates: Seq<Option<String>>) -> Option<Seq<char>>
    decreases candidates.len(),
{
    if candidates.len() == 0 {
        None
    } else if candidates[0] is Some && text::trimmed(candidates[0]->0@).len() > 0 {
        Some(text::trimmed(candidates[0]->0@))
    } else {
        first_name(candidates.drop_first())
    }
}

/// A name for this machine: the first of the system's answers that says
/// anything, in the order given, and a stock name where none does.
pub fn hostname(candidates: &Vec<Option<String>>) -> (r: String)
    ensures
        r@ == match first_name(candidates@) {
            Some(name) => name,
            None => "CrossDesk device"@,
        },
{
    let mut i: usize = 0;
    assert(candidates@.subrange(0, candidates@.len() as int) =~= candidates@);
    while i < candidates.len()
        invariant
            i <= candidates@.len(),
            first_name(candidates@) == first_name(
                candidates@.subrange(i as int, candidates@.len() as int),
            ),
        decreases candidates@.len() - i,
    {
        assert(candidates@.subrange(i as int, candidates@.len() as int).drop_first()
            =~= candidates@.subrange(i + 1, candidates@.len() as int));
        if let Some(raw) = &candidates[i] {
            let name = text::trim(raw.as_str());
            if text::has_text(name.as_str()) {
                return name;
            }
        }
        i += 1;
    }
    "CrossDesk device".to_owned()
}

/// The name of an operating system as it is shown to people.
pub open spec fn os_text(os: Seq<char>) -> Seq<char> {
    if os == "windows"@ {
        "Windows"@
    } else if os == "macos"@ {
        "macOS"@
    } else if os == "linux"@ {
        "Linux"@
    } else {
        os
    }
}

/// The name of an operating system as it is shown to people.
pub fn os_label(os: &str) -> (r: String)
    ensures
        r@ == os_text(os@),
{
    if *os == *"windows" {
        "Windows".to_owned()
    } else if *os == *"macos" {
        "macOS".to_owned()
    } else if *os == *"linux" {
        "Linux".to_owned()
    } else {
        os.to_owned()
    }
}

} // verus!
